use shell_core::builtins::{
    cat_error_message, cd_error_message, name_in_list, type_message, BuiltinCommand, BuiltinStep,
    CdCommand, EchoCommand, ExitCommand, HistoryCommand, PwdCommand, ShellContext, TypeCommand,
};
use shell_core::cli::{handle_command_with_clap, ShellArgs, ShellCommand};
use shell_core::errors::ShellError;
use shell_core::history::{add_to_history, format_history, get_history, load_history_from_content};
use shell_core::registry::{default_registry, BuiltinHandle, BuiltinRegistry};

fn words(parts: &[&str]) -> Vec<String> {
    parts.iter().map(|s| s.to_string()).collect()
}

fn ctx() -> ShellContext {
    ShellContext {
        cwd: "/home/user".to_string(),
        home: Some("/home/user".to_string()),
        builtin_names: words(&["echo", "pwd", "cd", "type", "exit", "history"]),
        history: words(&["first", "second"]),
    }
}

#[test]
fn echo_joins_arguments_with_single_spaces() {
    let step = EchoCommand.execute(&words(&["echo", "hello   world"]), &ctx()).unwrap();
    match step {
        BuiltinStep::Output { text } => assert_eq!(text, "hello   world\n"),
        other => panic!("unexpected step {:?}", kind_of(&other)),
    }
    let step = EchoCommand.execute(&words(&["echo", "a\"b", "c d", "ef"]), &ctx()).unwrap();
    match step {
        BuiltinStep::Output { text } => assert_eq!(text, "a\"b c d ef\n"),
        other => panic!("unexpected step {:?}", kind_of(&other)),
    }
    let step = EchoCommand.execute(&words(&["echo"]), &ctx()).unwrap();
    match step {
        BuiltinStep::Output { text } => assert_eq!(text, "\n"),
        other => panic!("unexpected step {:?}", kind_of(&other)),
    }
}

fn kind_of(step: &BuiltinStep) -> &'static str {
    match step {
        BuiltinStep::Nothing => "nothing",
        BuiltinStep::Output { .. } => "output",
        BuiltinStep::Chdir { .. } => "chdir",
        BuiltinStep::FindInPath { .. } => "find-in-path",
        BuiltinStep::LoadHistory { .. } => "load-history",
        BuiltinStep::Exit { .. } => "exit",
        BuiltinStep::CatFiles { .. } => "cat-files",
    }
}

#[test]
fn pwd_prints_the_working_directory() {
    let step = PwdCommand.execute(&words(&["pwd"]), &ctx()).unwrap();
    match step {
        BuiltinStep::Output { text } => assert_eq!(text, "/home/user\n"),
        other => panic!("unexpected step {:?}", kind_of(&other)),
    }
}

#[test]
fn cd_resolves_its_target() {
    match CdCommand.execute(&words(&["cd", "/tmp"]), &ctx()).unwrap() {
        BuiltinStep::Chdir { target } => assert_eq!(target, "/tmp"),
        other => panic!("unexpected step {:?}", kind_of(&other)),
    }
    match CdCommand.execute(&words(&["cd"]), &ctx()).unwrap() {
        BuiltinStep::Chdir { target } => assert_eq!(target, "/home/user"),
        other => panic!("unexpected step {:?}", kind_of(&other)),
    }
    match CdCommand.execute(&words(&["cd", "~/dir"]), &ctx()).unwrap() {
        BuiltinStep::Chdir { target } => assert_eq!(target, "/home/user/dir"),
        other => panic!("unexpected step {:?}", kind_of(&other)),
    }
    match CdCommand.execute(&words(&["cd", "~"]), &ctx()).unwrap() {
        BuiltinStep::Chdir { target } => assert_eq!(target, "/home/user"),
        other => panic!("unexpected step {:?}", kind_of(&other)),
    }
}

#[test]
fn cd_without_home_is_an_error() {
    let mut c = ctx();
    c.home = None;
    match CdCommand.execute(&words(&["cd"]), &c) {
        Err(ShellError::InvalidDirectory(m)) => {
            assert_eq!(m, "HOME environment variable not set");
        }
        other => panic!("expected InvalidDirectory, got {:?}", other.map(|s| kind_of(&s))),
    }
    match CdCommand.execute(&words(&["cd", "~x"]), &c) {
        Err(ShellError::InvalidDirectory(m)) => {
            assert_eq!(m, "HOME environment variable not set");
        }
        other => panic!("expected InvalidDirectory, got {:?}", other.map(|s| kind_of(&s))),
    }
}

#[test]
fn cd_error_message_matches_the_diagnostic() {
    assert_eq!(
        cd_error_message("/nonexistent/xyz"),
        "cd: /nonexistent/xyz: No such file or directory"
    );
}

#[test]
fn type_prefers_builtins() {
    match TypeCommand.execute(&words(&["type", "echo"]), &ctx()).unwrap() {
        BuiltinStep::Output { text } => assert_eq!(text, "echo is a shell builtin\n"),
        other => panic!("unexpected step {:?}", kind_of(&other)),
    }
    match TypeCommand.execute(&words(&["type", "ls"]), &ctx()).unwrap() {
        BuiltinStep::FindInPath { name } => assert_eq!(name, "ls"),
        other => panic!("unexpected step {:?}", kind_of(&other)),
    }
}

#[test]
fn type_messages_after_the_path_search() {
    assert_eq!(type_message("ls", &Some("/usr/bin/ls".to_string())), "ls is /usr/bin/ls\n");
    assert_eq!(type_message("nope_xyz", &None), "nope_xyz: not found\n");
}

#[test]
fn exit_parses_its_code() {
    assert_eq!(ExitCommand.exit_code(&words(&["exit", "7"])), Some(7));
    assert_eq!(ExitCommand.exit_code(&words(&["exit"])), Some(0));
    assert_eq!(ExitCommand.exit_code(&words(&["exit", "abc"])), Some(0));
    assert_eq!(ExitCommand.exit_code(&words(&["exit", "-3"])), Some(-3));
    match ExitCommand.execute(&words(&["exit"]), &ctx()).unwrap() {
        BuiltinStep::Nothing => {}
        other => panic!("unexpected step {:?}", kind_of(&other)),
    }
    assert_eq!(EchoCommand.exit_code(&words(&["echo"])), None);
}

#[test]
fn history_lists_numbered_entries() {
    match HistoryCommand.execute(&words(&["history"]), &ctx()).unwrap() {
        BuiltinStep::Output { text } => {
            assert_eq!(text, "    1  first\n    2  second\n");
        }
        other => panic!("unexpected step {:?}", kind_of(&other)),
    }
}

#[test]
fn history_r_asks_for_a_file_load() {
    match HistoryCommand.execute(&words(&["history", "-r", "/tmp/h"]), &ctx()).unwrap() {
        BuiltinStep::LoadHistory { path } => assert_eq!(path, "/tmp/h"),
        other => panic!("unexpected step {:?}", kind_of(&other)),
    }
}

#[test]
fn history_load_replaces_with_nonblank_lines() {
    let mut history = words(&["old"]);
    load_history_from_content(&mut history, "one\ntwo\n\nthree\n");
    assert_eq!(history, words(&["one", "two", "three"]));
    let listing = format_history(&history);
    assert_eq!(listing, "    1  one\n    2  two\n    3  three\n");
}

#[test]
fn history_append_and_copy() {
    let mut history: Vec<String> = Vec::new();
    add_to_history(&mut history, "echo hi");
    add_to_history(&mut history, "pwd");
    assert_eq!(get_history(&history), words(&["echo hi", "pwd"]));
}

#[test]
fn registry_knows_its_builtins() {
    let registry = default_registry();
    assert!(registry.is_builtin("echo"));
    assert!(registry.is_builtin("history"));
    assert!(!registry.is_builtin("ls"));
    assert!(!registry.is_builtin(""));
    assert_eq!(
        registry.builtin_names(),
        words(&["echo", "pwd", "cd", "type", "exit", "history"])
    );
}

#[test]
fn registry_builds_by_registration() {
    let mut registry = BuiltinRegistry::new();
    assert!(!registry.is_builtin("echo"));
    registry.register(BuiltinHandle::Echo(EchoCommand));
    assert!(registry.is_builtin("echo"));
    assert!(!registry.is_builtin("pwd"));
}

#[test]
fn registry_dispatches_execute_and_exit() {
    let registry = default_registry();
    let step = registry.execute("echo", &words(&["echo", "hi"]), &ctx());
    match step {
        Some(Ok(BuiltinStep::Output { text })) => assert_eq!(text, "hi\n"),
        _ => panic!("echo did not produce output"),
    }
    assert!(registry.execute("ls", &words(&["ls"]), &ctx()).is_none());
    assert_eq!(registry.check_exit("exit", &words(&["exit", "7"])), Some(7));
    assert_eq!(registry.check_exit("echo", &words(&["echo"])), None);
    assert_eq!(registry.check_exit("ls", &words(&["ls"])), None);
}

#[test]
fn builtin_descriptions_and_names() {
    assert_eq!(EchoCommand.name(), "echo");
    assert_eq!(PwdCommand.name(), "pwd");
    assert_eq!(CdCommand.name(), "cd");
    assert_eq!(TypeCommand.name(), "type");
    assert_eq!(ExitCommand.name(), "exit");
    assert_eq!(HistoryCommand.name(), "history");
    assert!(!EchoCommand.description().is_empty());
}

#[test]
fn name_lookup_is_exact() {
    let names = words(&["echo", "pwd"]);
    assert!(name_in_list(&names, "echo"));
    assert!(!name_in_list(&names, "ech"));
    assert!(!name_in_list(&names, "echoo"));
}

#[test]
fn cat_error_message_matches_cat() {
    assert_eq!(cat_error_message("foo"), "cat: foo: No such file or directory\n");
}

#[test]
fn shell_args_parse_the_builtin_grammar() {
    match ShellArgs::try_parse_from(&words(&["echo", "a", "b"])).unwrap().command {
        ShellCommand::Echo { args } => assert_eq!(args, words(&["a", "b"])),
        _ => panic!("expected echo"),
    }
    assert!(matches!(
        ShellArgs::try_parse_from(&words(&["pwd"])).unwrap().command,
        ShellCommand::Pwd
    ));
    assert!(ShellArgs::try_parse_from(&words(&["pwd", "x"])).is_none());
    match ShellArgs::try_parse_from(&words(&["exit", "abc"])).unwrap().command {
        ShellCommand::Exit { code } => assert_eq!(code, 0),
        _ => panic!("expected exit"),
    }
    match ShellArgs::try_parse_from(&words(&["exit", "9"])).unwrap().command {
        ShellCommand::Exit { code } => assert_eq!(code, 9),
        _ => panic!("expected exit"),
    }
    assert!(ShellArgs::try_parse_from(&words(&["exit", "1", "2"])).is_none());
    match ShellArgs::try_parse_from(&words(&["cd", "/tmp"])).unwrap().command {
        ShellCommand::Cd { path } => assert_eq!(path, Some("/tmp".to_string())),
        _ => panic!("expected cd"),
    }
    assert!(ShellArgs::try_parse_from(&words(&["type"])).is_none());
    assert!(ShellArgs::try_parse_from(&words(&["nonsense"])).is_none());
    assert!(ShellArgs::try_parse_from(&Vec::new()).is_none());
}

#[test]
fn clap_style_dispatch_matches_the_builtins() {
    match handle_command_with_clap(&words(&["echo", "x", "y"]), &ctx()).unwrap() {
        BuiltinStep::Output { text } => assert_eq!(text, "x y\n"),
        other => panic!("unexpected step {:?}", kind_of(&other)),
    }
    match handle_command_with_clap(&words(&["pwd"]), &ctx()).unwrap() {
        BuiltinStep::Output { text } => assert_eq!(text, "/home/user\n"),
        other => panic!("unexpected step {:?}", kind_of(&other)),
    }
    match handle_command_with_clap(&words(&["exit", "7"]), &ctx()).unwrap() {
        BuiltinStep::Exit { code } => assert_eq!(code, 7),
        other => panic!("unexpected step {:?}", kind_of(&other)),
    }
    match handle_command_with_clap(&words(&["cd", "~/w"]), &ctx()).unwrap() {
        BuiltinStep::Chdir { target } => assert_eq!(target, "/home/user/w"),
        other => panic!("unexpected step {:?}", kind_of(&other)),
    }
    match handle_command_with_clap(&words(&["type", "cd"]), &ctx()).unwrap() {
        BuiltinStep::Output { text } => assert_eq!(text, "cd is a shell builtin\n"),
        other => panic!("unexpected step {:?}", kind_of(&other)),
    }
    match handle_command_with_clap(&words(&["cat", "f1", "f2"]), &ctx()).unwrap() {
        BuiltinStep::CatFiles { files } => assert_eq!(files, words(&["f1", "f2"])),
        other => panic!("unexpected step {:?}", kind_of(&other)),
    }
    assert!(matches!(
        handle_command_with_clap(&words(&["frobnicate"]), &ctx()),
        Err(ShellError::InputError(_))
    ));
}

#[test]
fn error_messages_render() {
    assert_eq!(
        ShellError::CommandNotFound("x: command not found".to_string()).message(),
        "x: command not found"
    );
    assert_eq!(ShellError::InvalidQuoting.message(), "Invalid quoting in command");
    assert_eq!(ShellError::InputError("bad".to_string()).message(), "Input error: bad");
    assert_eq!(ShellError::IoError("gone".to_string()).message(), "IO error: gone");
    assert_eq!(ShellError::Interrupted.message(), "Interrupted");
    assert_eq!(ShellError::ExecutionError("e".to_string()).message(), "e");
    assert_eq!(ShellError::RedirectionError("r".to_string()).message(), "r");
    assert_eq!(ShellError::InvalidDirectory("d".to_string()).message(), "d");
}
