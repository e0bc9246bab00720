use pipeshell::orchestrate::Action;
use pipeshell::orchestrate::Event;
use pipeshell::orchestrate::RunState;
use pipeshell::orchestrate::apply_event;
use pipeshell::orchestrate::next_action;
use pipeshell::pipeline::parse_line;

#[test]
fn single_command_spawns_inherited_then_waits() {
    let cmds = parse_line("echo hi").unwrap();
    let st = RunState::initial();
    let a = next_action(&cmds, &st);
    assert_eq!(
        a,
        Action::Spawn {
            program: "echo".to_string(),
            args: vec!["hi".to_string()],
            stdin_from_pipe: false,
            capture_stdout: false,
        }
    );
    let st = apply_event(&cmds, st, Event::SpawnDone { ok: true });
    assert_eq!(next_action(&cmds, &st), Action::Wait);
    let st = apply_event(&cmds, st, Event::WaitDone { ok: true });
    assert_eq!(next_action(&cmds, &st), Action::FinishLine);
}

#[test]
fn second_stage_starts_without_first_finishing() {
    let cmds = parse_line("false | echo ok").unwrap();
    let st = RunState::initial();
    let a = next_action(&cmds, &st);
    assert_eq!(
        a,
        Action::Spawn {
            program: "false".to_string(),
            args: vec![],
            stdin_from_pipe: false,
            capture_stdout: true,
        }
    );
    let st = apply_event(&cmds, st, Event::SpawnDone { ok: true });
    // The next demand is the second spawn, not a wait: the first stage's
    // exit status is never consulted before the later stage runs.
    let a = next_action(&cmds, &st);
    assert_eq!(
        a,
        Action::Spawn {
            program: "echo".to_string(),
            args: vec!["ok".to_string()],
            stdin_from_pipe: true,
            capture_stdout: false,
        }
    );
    let st = apply_event(&cmds, st, Event::SpawnDone { ok: true });
    assert_eq!(next_action(&cmds, &st), Action::Wait);
}

#[test]
fn pipeline_wires_each_output_to_next_input() {
    let cmds = parse_line("printf foo | cat").unwrap();
    let st = RunState::initial();
    match next_action(&cmds, &st) {
        Action::Spawn { capture_stdout, stdin_from_pipe, .. } => {
            assert!(capture_stdout);
            assert!(!stdin_from_pipe);
        }
        other => panic!("expected a spawn, got {:?}", other),
    }
    let st = apply_event(&cmds, st, Event::SpawnDone { ok: true });
    match next_action(&cmds, &st) {
        Action::Spawn { capture_stdout, stdin_from_pipe, .. } => {
            assert!(!capture_stdout);
            assert!(stdin_from_pipe);
        }
        other => panic!("expected a spawn, got {:?}", other),
    }
}

#[test]
fn spawn_failure_aborts_line_not_shell() {
    let cmds = parse_line("nonexistent_cmd").unwrap();
    let st = RunState::initial();
    match next_action(&cmds, &st) {
        Action::Spawn { program, .. } => assert_eq!(program, "nonexistent_cmd"),
        other => panic!("expected a spawn, got {:?}", other),
    }
    let st = apply_event(&cmds, st, Event::SpawnDone { ok: false });
    assert_eq!(st, RunState::Done);
    assert_eq!(next_action(&cmds, &st), Action::FinishLine);
}

#[test]
fn spawn_failure_skips_remaining_stages() {
    let cmds = parse_line("nonexistent_cmd | cat | wc").unwrap();
    let st = RunState::initial();
    let st = apply_event(&cmds, st, Event::SpawnDone { ok: false });
    // The rest of the pipeline is aborted: no further spawn, no wait.
    assert_eq!(next_action(&cmds, &st), Action::FinishLine);
}

#[test]
fn exit_ends_loop_at_first_occurrence() {
    let cmds = parse_line("sleep 100 | exit | echo after").unwrap();
    let st = RunState::initial();
    match next_action(&cmds, &st) {
        Action::Spawn { program, .. } => assert_eq!(program, "sleep"),
        other => panic!("expected a spawn, got {:?}", other),
    }
    let st = apply_event(&cmds, st, Event::SpawnDone { ok: true });
    // Exit is demanded at once: no wait on the still-running earlier stage.
    assert_eq!(next_action(&cmds, &st), Action::Exit);
}

#[test]
fn exit_alone_ends_loop() {
    let cmds = parse_line("exit").unwrap();
    let st = RunState::initial();
    assert_eq!(next_action(&cmds, &st), Action::Exit);
}

#[test]
fn cd_without_argument_targets_root() {
    let cmds = parse_line("cd").unwrap();
    let st = RunState::initial();
    assert_eq!(next_action(&cmds, &st), Action::ChangeDir { target: "/".to_string() });
}

#[test]
fn cd_with_argument_targets_it() {
    let cmds = parse_line("cd /tmp").unwrap();
    let st = RunState::initial();
    assert_eq!(next_action(&cmds, &st), Action::ChangeDir { target: "/tmp".to_string() });
}

#[test]
fn cd_failure_continues_the_loop() {
    let cmds = parse_line("cd /no/such/path").unwrap();
    let st = RunState::initial();
    let failed = apply_event(&cmds, st, Event::CdDone { ok: false });
    let succeeded = apply_event(&cmds, st, Event::CdDone { ok: true });
    assert_eq!(failed, succeeded);
    assert_eq!(failed, RunState::Running { idx: 1, has_prev: false });
    assert_eq!(next_action(&cmds, &failed), Action::FinishLine);
}

#[test]
fn cd_discards_inflight_handle_without_waiting() {
    let cmds = parse_line("false | cd /").unwrap();
    let st = RunState::initial();
    let st = apply_event(&cmds, st, Event::SpawnDone { ok: true });
    assert_eq!(next_action(&cmds, &st), Action::ChangeDir { target: "/".to_string() });
    let st = apply_event(&cmds, st, Event::CdDone { ok: true });
    // The captured handle is dropped: the line ends with no wait.
    assert_eq!(next_action(&cmds, &st), Action::FinishLine);
}

#[test]
fn wait_failure_is_fatal() {
    let cmds = parse_line("cat").unwrap();
    let st = RunState::initial();
    let st = apply_event(&cmds, st, Event::SpawnDone { ok: true });
    assert_eq!(next_action(&cmds, &st), Action::Wait);
    let st = apply_event(&cmds, st, Event::WaitDone { ok: false });
    assert_eq!(st, RunState::Failed);
    assert_eq!(next_action(&cmds, &st), Action::Abort);
}

#[test]
fn builtin_names_match_exactly_and_case_sensitively() {
    let cmds = parse_line("CD | exits | cdx").unwrap();
    let mut st = RunState::initial();
    for _ in 0..3 {
        match next_action(&cmds, &st) {
            Action::Spawn { .. } => {}
            other => panic!("expected a spawn, got {:?}", other),
        }
        st = apply_event(&cmds, st, Event::SpawnDone { ok: true });
    }
    assert_eq!(next_action(&cmds, &st), Action::Wait);
}
