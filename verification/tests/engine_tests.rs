use hardn_core::engine::{
    collect_execution, completion_lines, empty_command_lines, on_exit, on_spawn, plan_spawn,
    privileged_invocation, requires_sudo, secret_line, spawn_failure_lines, child_env,
    SpawnOutcome, WaitOutcome,
};
use hardn_core::lines::OutputLine;
use hardn_core::registry::Registry;
use hardn_core::text::tokenize;

fn cv(s: &str) -> Vec<char> {
    s.chars().collect()
}

fn sv(s: &str) -> String {
    s.to_string()
}

fn text_of(v: &[char]) -> String {
    v.iter().collect()
}

#[test]
fn tokenize_splits_on_whitespace() {
    let toks = tokenize(&cv("echo hello"));
    assert_eq!(toks, vec![cv("echo"), cv("hello")]);
}

#[test]
fn tokenize_collapses_runs_and_edges() {
    let toks = tokenize(&cv("  hardn   monitor start \t"));
    assert_eq!(toks, vec![cv("hardn"), cv("monitor"), cv("start")]);
}

#[test]
fn tokenize_empty_and_blank_give_no_tokens() {
    assert_eq!(tokenize(&cv("")).len(), 0);
    assert_eq!(tokenize(&cv("   \t ")).len(), 0);
}

#[test]
fn plain_run_emits_output_status_sentinel() {
    // Input `echo hello`: one Plain("hello") line, then a successful final
    // status with code 0, then the sentinel.
    let stream = vec![OutputLine::Plain(cv("hello"))];
    let got = collect_execution(
        &cv("echo hello"),
        SpawnOutcome::Started(42),
        stream,
        WaitOutcome::Exited(Some(0)),
    );
    assert_eq!(
        got,
        vec![
            OutputLine::Plain(cv("hello")),
            OutputLine::StatusFinal(true, Some(0)),
            OutputLine::Sentinel,
        ]
    );
}

#[test]
fn empty_command_emits_error_then_sentinel_registry_unchanged() {
    // Input ``: one error line, then the sentinel, and the registry is never
    // touched because no process is spawned.
    let registry = Registry::new();
    assert_eq!(registry.count(), 0);
    let toks = tokenize(&cv(""));
    assert_eq!(toks.len(), 0);
    let got = empty_command_lines();
    assert_eq!(
        got,
        vec![
            OutputLine::Error(cv("Error: Empty command")),
            OutputLine::Sentinel,
        ]
    );
    assert_eq!(registry.count(), 0);
}

#[test]
fn collect_execution_rejects_blank_command() {
    let got = collect_execution(
        &cv("   "),
        SpawnOutcome::Started(1),
        Vec::new(),
        WaitOutcome::Exited(Some(0)),
    );
    assert_eq!(
        got,
        vec![
            OutputLine::Error(cv("Error: Empty command")),
            OutputLine::Sentinel,
        ]
    );
}

#[test]
fn exit_code_three_reported_as_failure() {
    let got = collect_execution(
        &cv("hardn audit"),
        SpawnOutcome::Started(7),
        Vec::new(),
        WaitOutcome::Exited(Some(3)),
    );
    assert_eq!(
        got,
        vec![OutputLine::StatusFinal(false, Some(3)), OutputLine::Sentinel]
    );
}

#[test]
fn spawn_failure_emits_error_then_sentinel() {
    let got = spawn_failure_lines(&cv("No such file or directory"));
    assert_eq!(
        got,
        vec![
            OutputLine::Error(cv("Error starting command: No such file or directory")),
            OutputLine::Sentinel,
        ]
    );
}

#[test]
fn collect_execution_spawn_failure_drops_stream() {
    let got = collect_execution(
        &cv("nosuchtool"),
        SpawnOutcome::Failed(cv("permission denied")),
        Vec::new(),
        WaitOutcome::Exited(Some(0)),
    );
    assert_eq!(
        got,
        vec![
            OutputLine::Error(cv("Error starting command: permission denied")),
            OutputLine::Sentinel,
        ]
    );
}

#[test]
fn wait_failure_emits_error_then_sentinel() {
    let got = completion_lines(WaitOutcome::WaitError(cv("interrupted")));
    assert_eq!(
        got,
        vec![
            OutputLine::Error(cv("Error waiting for command: interrupted")),
            OutputLine::Sentinel,
        ]
    );
}

#[test]
fn signal_termination_has_no_code() {
    let got = completion_lines(WaitOutcome::Exited(None));
    assert_eq!(
        got,
        vec![OutputLine::StatusFinal(false, None), OutputLine::Sentinel]
    );
}

#[test]
fn sentinel_is_always_last_and_unique() {
    let cases = vec![
        collect_execution(
            &cv(""),
            SpawnOutcome::Started(1),
            Vec::new(),
            WaitOutcome::Exited(Some(0)),
        ),
        collect_execution(
            &cv("x"),
            SpawnOutcome::Failed(cv("gone")),
            Vec::new(),
            WaitOutcome::Exited(Some(0)),
        ),
        collect_execution(
            &cv("x y"),
            SpawnOutcome::Started(2),
            vec![OutputLine::Plain(cv("a")), OutputLine::Warning(cv("b"))],
            WaitOutcome::WaitError(cv("oops")),
        ),
    ];
    for lines in cases {
        let sentinels = lines
            .iter()
            .filter(|l| matches!(l, OutputLine::Sentinel))
            .count();
        assert_eq!(sentinels, 1);
        assert_eq!(lines.last(), Some(&OutputLine::Sentinel));
    }
}

#[test]
fn status_lines_zero_or_one_per_execution() {
    let count_status = |lines: &Vec<OutputLine>| {
        lines
            .iter()
            .filter(|l| matches!(l, OutputLine::StatusFinal(_, _)))
            .count()
    };
    let spawned = collect_execution(
        &cv("echo hi"),
        SpawnOutcome::Started(3),
        vec![OutputLine::Plain(cv("hi"))],
        WaitOutcome::Exited(Some(0)),
    );
    assert_eq!(count_status(&spawned), 1);
    let failed = collect_execution(
        &cv("echo hi"),
        SpawnOutcome::Failed(cv("gone")),
        Vec::new(),
        WaitOutcome::Exited(Some(0)),
    );
    assert_eq!(count_status(&failed), 0);
    let empty = collect_execution(
        &cv(""),
        SpawnOutcome::Started(3),
        Vec::new(),
        WaitOutcome::Exited(Some(0)),
    );
    assert_eq!(count_status(&empty), 0);
}

#[test]
fn sudo_detection() {
    assert!(requires_sudo(&cv("sudo hardn setup")));
    assert!(requires_sudo(&cv("run sudo now")));
    assert!(!requires_sudo(&cv("hardn status")));
    assert!(!requires_sudo(&cv("pseudocode")));
}

#[test]
fn privileged_invocation_holds_no_secret() {
    // The argv is a function of the command alone: the interpreter, its flag,
    // and the unmodified command text. The secret is not an input at all.
    let argv = privileged_invocation(&cv("sudo hardn setup"));
    assert_eq!(argv.len(), 3);
    assert_eq!(text_of(&argv[0]), sv("bash"));
    assert_eq!(text_of(&argv[1]), sv("-c"));
    assert_eq!(text_of(&argv[2]), sv("sudo hardn setup"));
}

#[test]
fn secret_travels_as_one_input_line() {
    let payload = secret_line(&cv("SECRET-REDACTED"));
    assert_eq!(text_of(&payload), sv("SECRET-REDACTED\n"));
    // Exactly one line: the newline is terminal and unique.
    assert_eq!(payload.iter().filter(|c| **c == '\n').count(), 1);
}

#[test]
fn child_environment_forces_non_interactive() {
    let env = child_env();
    assert_eq!(env.len(), 2);
    assert_eq!(text_of(&env[0].0), sv("DEBIAN_FRONTEND"));
    assert_eq!(text_of(&env[0].1), sv("noninteractive"));
    assert_eq!(text_of(&env[1].0), sv("NEEDRESTART_MODE"));
    assert_eq!(text_of(&env[1].1), sv("a"));
}

#[test]
fn plan_spawn_splits_program_and_arguments() {
    let plan = plan_spawn(&cv("sudo hardn setup --non-interactive"));
    let argv = plan.expect("a non-empty command spawns");
    assert_eq!(
        argv,
        vec![cv("sudo"), cv("hardn"), cv("setup"), cv("--non-interactive")]
    );
}

#[test]
fn plan_spawn_rejects_empty_command() {
    let plan = plan_spawn(&cv(" \t "));
    let lines = plan.expect_err("a blank command is rejected");
    assert_eq!(
        lines,
        vec![
            OutputLine::Error(cv("Error: Empty command")),
            OutputLine::Sentinel,
        ]
    );
}

#[test]
fn on_spawn_registers_the_started_process() {
    let mut reg = Registry::new();
    let lines = on_spawn(&SpawnOutcome::Started(321), &mut reg);
    assert_eq!(lines.len(), 0);
    assert!(reg.contains_id(321));
    assert_eq!(reg.count(), 1);
}

#[test]
fn on_spawn_failure_leaves_registry_untouched() {
    let mut reg = Registry::new();
    let lines = on_spawn(&SpawnOutcome::Failed(cv("executable not found")), &mut reg);
    assert_eq!(
        lines,
        vec![
            OutputLine::Error(cv("Error starting command: executable not found")),
            OutputLine::Sentinel,
        ]
    );
    assert_eq!(reg.count(), 0);
}

#[test]
fn on_exit_unregisters_and_reports_status() {
    let mut reg = Registry::new();
    let _ = on_spawn(&SpawnOutcome::Started(11), &mut reg);
    let lines = on_exit(11, WaitOutcome::Exited(Some(0)), &mut reg);
    assert_eq!(
        lines,
        vec![OutputLine::StatusFinal(true, Some(0)), OutputLine::Sentinel]
    );
    assert!(!reg.contains_id(11));
    assert_eq!(reg.count(), 0);
}

#[test]
fn tokenize_splits_on_unicode_whitespace() {
    let toks = tokenize(&cv("echo\u{00A0}hello"));
    assert_eq!(toks, vec![cv("echo"), cv("hello")]);
    assert_eq!(tokenize(&cv("\u{2028}\u{205F}")).len(), 0);
}
