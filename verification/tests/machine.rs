use shell_core::builtins::BuiltinStep;
use shell_core::completion::{CompletionCandidate, ShellCompleter};
use shell_core::errors::ShellError;
use shell_core::executor::{
    plan_pipeline, run_external_command, ExecAction, OutWiring, PipelineExec, StdinWiring,
};
use shell_core::redirection::RedirectionMode;
use shell_core::registry::default_registry;
use shell_core::repl::prepare_line;

fn words(parts: &[&str]) -> Vec<String> {
    parts.iter().map(|s| s.to_string()).collect()
}

fn argvs(stages: &[&[&str]]) -> Vec<Vec<String>> {
    stages.iter().map(|s| words(s)).collect()
}

#[test]
fn plan_keeps_stages_in_order() {
    let registry = default_registry();
    let plan = plan_pipeline(&argvs(&[&["seq", "3"], &["tr", "a", "b"]]), &registry)
        .unwrap()
        .unwrap();
    assert_eq!(plan.stages.len(), 2);
    assert!(!plan.last_is_builtin);
    assert_eq!(plan.stages[0].argv, words(&["seq", "3"]));
    assert_eq!(plan.stages[1].argv, words(&["tr", "a", "b"]));
}

#[test]
fn plan_accepts_a_trailing_builtin() {
    let registry = default_registry();
    let plan = plan_pipeline(&argvs(&[&["seq", "3"], &["history"]]), &registry)
        .unwrap()
        .unwrap();
    assert!(plan.last_is_builtin);
}

#[test]
fn plan_rejects_a_builtin_before_the_last_stage() {
    let registry = default_registry();
    // Only a trailing builtin is supported; anywhere else the stage is a
    // resolution failure, before anything spawns.
    match plan_pipeline(&argvs(&[&["echo", "a"], &["tr", "a", "b"]]), &registry) {
        Err(ShellError::CommandNotFound(m)) => assert_eq!(m, "echo: command not found"),
        other => panic!("expected CommandNotFound, got ok={:?}", other.is_ok()),
    }
    match prepare_line("echo a | tr a b", &registry) {
        Err(ShellError::CommandNotFound(m)) => assert_eq!(m, "echo: command not found"),
        other => panic!("expected CommandNotFound, got ok={:?}", other.is_ok()),
    }
}

#[test]
fn plan_rejects_an_empty_stage_in_a_pipeline() {
    let registry = default_registry();
    assert!(matches!(
        plan_pipeline(&argvs(&[&["a"], &[">", "f"]]), &registry),
        Err(ShellError::ExecutionError(_))
    ));
}

#[test]
fn plan_treats_a_lone_redirection_line_as_noop() {
    let registry = default_registry();
    assert!(plan_pipeline(&argvs(&[&[">", "f"]]), &registry).unwrap().is_none());
}

#[test]
fn plan_splits_redirections_per_stage() {
    let registry = default_registry();
    let plan = plan_pipeline(&argvs(&[&["seq", "9"], &["tail", "-1", ">", "out", "2>>", "err"]]),
        &registry)
        .unwrap()
        .unwrap();
    let last = &plan.stages[1];
    assert_eq!(last.argv, words(&["tail", "-1"]));
    let so = last.stdout_redir.as_ref().unwrap();
    assert_eq!(so.file, "out");
    assert_eq!(so.mode, RedirectionMode::Overwrite);
    let se = last.stderr_redir.as_ref().unwrap();
    assert_eq!(se.file, "err");
    assert_eq!(se.mode, RedirectionMode::Append);
}

#[test]
fn three_stage_pipeline_spawns_and_reaps_in_order() {
    let registry = default_registry();
    let plan = prepare_line("printf a | tr a b | tr b c", &registry).unwrap().unwrap();
    let mut machine = PipelineExec::new(plan);

    // Resolution, left to right.
    for expected in ["printf", "tr", "tr"] {
        match machine.next_action() {
            ExecAction::Resolve { name } => assert_eq!(name, expected),
            _ => panic!("expected a resolve action"),
        }
        machine.on_resolved(Some(format!("/bin/{}", expected)));
    }

    // Spawning, left to right, with the pipe wiring of the plumbing plan.
    for stage in 0..3usize {
        match machine.next_action() {
            ExecAction::Spawn { stage: s, path: _, args: _, stdin, stdout, stderr } => {
                assert_eq!(s, stage);
                if stage == 0 {
                    assert_eq!(stdin, StdinWiring::Inherit);
                } else {
                    assert_eq!(stdin, StdinWiring::FromPipe { index: stage - 1 });
                }
                if stage == 2 {
                    assert_eq!(stdout, OutWiring::Inherit);
                } else {
                    assert_eq!(stdout, OutWiring::ToPipe { index: stage });
                }
                assert_eq!(stderr, OutWiring::Inherit);
            }
            _ => panic!("expected a spawn action"),
        }
        machine.on_spawned(true, String::new());
    }

    // Reaping, in spawn order.
    for child in 0..3usize {
        match machine.next_action() {
            ExecAction::Wait { child: c } => assert_eq!(c, child),
            _ => panic!("expected a wait action"),
        }
        machine.on_waited();
    }

    assert!(machine.is_done());
    assert!(machine.outcome().is_none());
    // No zombie: every spawned child was waited for.
    assert_eq!(machine.spawned, 3);
    assert_eq!(machine.waited, 3);
}

#[test]
fn spawn_failure_still_reaps_spawned_children() {
    let registry = default_registry();
    let plan = prepare_line("seq 3 | tr a b", &registry).unwrap().unwrap();
    let mut machine = PipelineExec::new(plan);
    machine.on_resolved(Some("/usr/bin/seq".to_string()));
    machine.on_resolved(Some("/usr/bin/tr".to_string()));
    machine.on_spawned(true, String::new());
    machine.on_spawned(false, "resource exhausted".to_string());
    // The already-spawned first stage is still reaped before the run ends.
    match machine.next_action() {
        ExecAction::Wait { child } => assert_eq!(child, 0),
        _ => panic!("expected a wait action"),
    }
    machine.on_waited();
    assert!(machine.is_done());
    match machine.outcome() {
        Some(ShellError::ExecutionError(m)) => {
            assert_eq!(m, "Failed to execute tr: resource exhausted");
        }
        _ => panic!("expected an execution error"),
    }
    assert_eq!(machine.spawned, machine.waited);
}

#[test]
fn resolution_failure_aborts_before_any_spawn() {
    let registry = default_registry();
    let plan = prepare_line("nope_xyz | tr a b", &registry).unwrap().unwrap();
    let mut machine = PipelineExec::new(plan);
    match machine.next_action() {
        ExecAction::Resolve { name } => assert_eq!(name, "nope_xyz"),
        _ => panic!("expected a resolve action"),
    }
    machine.on_resolved(None);
    assert!(machine.is_done());
    match machine.outcome() {
        Some(ShellError::CommandNotFound(m)) => assert_eq!(m, "nope_xyz: command not found"),
        _ => panic!("expected CommandNotFound"),
    }
    assert_eq!(machine.spawned, 0);
    assert_eq!(machine.waited, 0);
}

#[test]
fn open_failure_aborts_before_any_spawn() {
    let registry = default_registry();
    let plan = prepare_line("seq 3 > /no/such/dir/out", &registry).unwrap().unwrap();
    let mut machine = PipelineExec::new(plan);
    machine.on_resolved(Some("/usr/bin/seq".to_string()));
    match machine.next_action() {
        ExecAction::OpenRedir { slot, path, append } => {
            assert_eq!(slot, 0);
            assert_eq!(path, "/no/such/dir/out");
            assert!(!append);
        }
        _ => panic!("expected an open action"),
    }
    machine.on_opened(false, "No such file or directory".to_string());
    assert!(machine.is_done());
    match machine.outcome() {
        Some(ShellError::RedirectionError(m)) => {
            assert_eq!(m, "Failed to open '/no/such/dir/out': No such file or directory");
        }
        _ => panic!("expected a redirection error"),
    }
    assert_eq!(machine.spawned, 0);
}

#[test]
fn single_builtin_line_runs_in_process() {
    let registry = default_registry();
    let plan = prepare_line("echo hi > /tmp/out", &registry).unwrap().unwrap();
    assert!(plan.last_is_builtin);
    let mut machine = PipelineExec::new(plan);
    // The builtin's redirection target is opened before it runs.
    match machine.next_action() {
        ExecAction::OpenRedir { slot, path, append } => {
            assert_eq!(slot, 0);
            assert_eq!(path, "/tmp/out");
            assert!(!append);
        }
        _ => panic!("expected an open action"),
    }
    machine.on_opened(true, String::new());
    match machine.next_action() {
        ExecAction::RunBuiltin { stage } => assert_eq!(stage, 0),
        _ => panic!("expected the builtin to run"),
    }
    machine.on_builtin_done(None);
    assert!(machine.is_done());
    assert!(machine.outcome().is_none());
    assert_eq!(machine.spawned, 0);
    assert_eq!(machine.waited, 0);
}

#[test]
fn trailing_builtin_waits_then_drains_then_runs() {
    let registry = default_registry();
    let plan = prepare_line("seq 3 | history", &registry).unwrap().unwrap();
    let mut machine = PipelineExec::new(plan);
    machine.on_resolved(Some("/usr/bin/seq".to_string()));
    match machine.next_action() {
        ExecAction::Spawn { stage, stdout, .. } => {
            assert_eq!(stage, 0);
            // The upstream still writes into the pipe the shell will drain.
            assert_eq!(stdout, OutWiring::ToPipe { index: 0 });
        }
        _ => panic!("expected a spawn action"),
    }
    machine.on_spawned(true, String::new());
    // All children are reaped before the builtin runs.
    match machine.next_action() {
        ExecAction::Wait { child } => assert_eq!(child, 0),
        _ => panic!("expected a wait action"),
    }
    machine.on_waited();
    match machine.next_action() {
        ExecAction::Drain { pipe } => assert_eq!(pipe, 0),
        _ => panic!("expected a drain action"),
    }
    machine.on_drained();
    match machine.next_action() {
        ExecAction::RunBuiltin { stage } => assert_eq!(stage, 1),
        _ => panic!("expected the builtin to run"),
    }
    machine.on_builtin_done(None);
    assert!(machine.is_done());
    assert_eq!(machine.spawned, machine.waited);
}

#[test]
fn redirection_wiring_beats_the_pipe() {
    let registry = default_registry();
    let plan = prepare_line("seq 3 > mid | tr a b", &registry).unwrap().unwrap();
    let mut machine = PipelineExec::new(plan);
    machine.on_resolved(Some("/usr/bin/seq".to_string()));
    machine.on_resolved(Some("/usr/bin/tr".to_string()));
    machine.on_opened(true, String::new());
    match machine.next_action() {
        ExecAction::Spawn { stage, stdout, .. } => {
            assert_eq!(stage, 0);
            // Explicit redirection wins over the pipe wiring.
            assert_eq!(stdout, OutWiring::ToFile { slot: 0 });
        }
        _ => panic!("expected a spawn action"),
    }
}

#[test]
fn prepare_line_skips_blank_lines() {
    let registry = default_registry();
    assert!(prepare_line("", &registry).unwrap().is_none());
    assert!(prepare_line("   \t ", &registry).unwrap().is_none());
    assert!(prepare_line(" > f ", &registry).unwrap().is_none());
}

#[test]
fn prepare_line_propagates_parse_errors() {
    let registry = default_registry();
    assert!(matches!(
        prepare_line("echo 'unterminated", &registry),
        Err(ShellError::InvalidQuoting)
    ));
    assert!(matches!(prepare_line("a | | b", &registry), Err(ShellError::InputError(_))));
    assert!(matches!(
        prepare_line("echo hi >", &registry),
        Err(ShellError::RedirectionError(_))
    ));
}

#[test]
fn quoted_pipe_is_not_a_pipeline() {
    let registry = default_registry();
    let plan = prepare_line("echo '|'", &registry).unwrap().unwrap();
    assert_eq!(plan.stages.len(), 1);
    assert_eq!(plan.stages[0].argv, words(&["echo", "|"]));
    assert!(plan.last_is_builtin);
}

#[test]
fn external_command_line_builds_a_single_stage_machine() {
    let machine = run_external_command(&words(&["ls", "-l", ">", "out"])).unwrap().unwrap();
    // The machine starts at the first resolution.
    match machine.next_action() {
        ExecAction::Resolve { name } => assert_eq!(name, "ls"),
        _ => panic!("expected a resolve action"),
    }
    assert!(!machine.is_done());
    assert_eq!(machine.plan.stages.len(), 1);
    assert!(!machine.plan.last_is_builtin);
    assert_eq!(machine.plan.stages[0].argv, words(&["ls", "-l"]));
    assert_eq!(machine.plan.stages[0].stdout_redir.as_ref().unwrap().file, "out");
    assert!(run_external_command(&words(&[">", "f"])).unwrap().is_none());
    assert!(matches!(
        run_external_command(&words(&["ls", ">"])),
        Err(ShellError::RedirectionError(_))
    ));
}

fn displays(cands: &[CompletionCandidate]) -> Vec<String> {
    cands.iter().map(|c| c.display.clone()).collect()
}

#[test]
fn completion_filters_sorts_and_dedups() {
    let builtins = words(&["echo", "exit", "cd"]);
    let path_names = words(&["env", "echo", "cat"]);
    let completer = ShellCompleter;
    let (start, cands) = completer.complete("e", 1, &builtins, &path_names);
    assert_eq!(start, 0);
    assert_eq!(displays(&cands), words(&["echo", "env", "exit"]));
    for c in &cands {
        assert_eq!(c.replacement, c.display);
    }
}

#[test]
fn completion_single_match_gets_a_trailing_space() {
    let builtins = words(&["echo", "exit"]);
    let completer = ShellCompleter;
    let (start, cands) = completer.complete("ec", 2, &builtins, &Vec::new());
    assert_eq!(start, 0);
    assert_eq!(cands.len(), 1);
    assert_eq!(cands[0].display, "echo");
    assert_eq!(cands[0].replacement, "echo ");
}

#[test]
fn completion_only_applies_to_the_first_word() {
    let builtins = words(&["echo"]);
    let completer = ShellCompleter;
    let (start, cands) = completer.complete("echo fil", 8, &builtins, &Vec::new());
    assert_eq!(start, 8);
    assert!(cands.is_empty());
    let (start2, cands2) = completer.complete("echo ", 5, &builtins, &Vec::new());
    assert_eq!(start2, 5);
    assert!(cands2.is_empty());
}

#[test]
fn completion_empty_prefix_offers_everything() {
    let builtins = words(&["pwd", "cd"]);
    let completer = ShellCompleter;
    let (start, cands) = completer.complete("", 0, &builtins, &Vec::new());
    assert_eq!(start, 0);
    assert_eq!(displays(&cands), words(&["cd", "pwd"]));
}
