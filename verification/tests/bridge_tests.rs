use hardn_core::bridge::{header, prepare_run, pump};
use hardn_core::lines::{render, OutputLine};
use hardn_core::text::{blank, remove_occurrences, str_chars, trim, u64_dec};

fn cv(s: &str) -> Vec<char> {
    s.chars().collect()
}

fn text_of(v: &[char]) -> String {
    v.iter().collect()
}

#[test]
fn header_echoes_command_and_rules_off() {
    let h = header(&cv("hardn status"));
    let expected = format!("Running: hardn status\n{}\n", "=".repeat(60));
    assert_eq!(text_of(&h), expected);
}

#[test]
fn prepare_run_guards_sudo_commands() {
    let (banner, proceed) = prepare_run(&cv("sudo hardn setup"));
    assert!(!proceed);
    assert_eq!(banner.len(), 1);
    assert_eq!(
        text_of(&banner[0]),
        "This command requires sudo privileges. Use the password dialog instead."
    );
}

#[test]
fn prepare_run_announces_monitoring() {
    let (banner, proceed) = prepare_run(&cv("hardn monitor start"));
    assert!(proceed);
    assert_eq!(banner.len(), 2);
    assert_eq!(text_of(&banner[0]), "Starting HARDN monitoring services...");
    let (stop_banner, stop_proceed) = prepare_run(&cv("hardn monitor stop"));
    assert!(stop_proceed);
    assert_eq!(stop_banner.len(), 1);
    assert_eq!(text_of(&stop_banner[0]), "Stopping HARDN monitoring services...");
}

#[test]
fn prepare_run_announces_audit_and_backup() {
    let (audit_banner, _) = prepare_run(&cv("hardn audit"));
    assert_eq!(audit_banner.len(), 2);
    assert_eq!(
        text_of(&audit_banner[1]),
        "This may take several minutes to complete."
    );
    let (backup_banner, _) = prepare_run(&cv("hardn backup"));
    assert_eq!(backup_banner.len(), 1);
    assert_eq!(
        text_of(&backup_banner[0]),
        "Creating system configuration backup..."
    );
}

#[test]
fn prepare_run_is_silent_for_other_commands() {
    let (banner, proceed) = prepare_run(&cv("echo hello"));
    assert!(proceed);
    assert_eq!(banner.len(), 0);
}

#[test]
fn pump_renders_lines_in_arrival_order() {
    let items = vec![
        OutputLine::Info(cv("step one")),
        OutputLine::Plain(cv("raw")),
        OutputLine::Warning(cv("careful")),
        OutputLine::Error(cv("bad")),
    ];
    let (text, done) = pump(&items);
    assert_eq!(
        text_of(&text),
        "INFO: step one\nraw\nWARNING: careful\nERROR: bad\n"
    );
    assert!(!done);
}

#[test]
fn pump_stops_at_sentinel_and_discards_the_rest() {
    let items = vec![
        OutputLine::Plain(cv("shown")),
        OutputLine::Sentinel,
        OutputLine::Plain(cv("never shown")),
    ];
    let (text, done) = pump(&items);
    assert_eq!(text_of(&text), "shown\n");
    assert!(done);
}

#[test]
fn pump_of_empty_batch_is_quiet() {
    let items: Vec<OutputLine> = Vec::new();
    let (text, done) = pump(&items);
    assert_eq!(text.len(), 0);
    assert!(!done);
}

#[test]
fn render_success_status() {
    let t = render(&OutputLine::StatusFinal(true, Some(0)));
    assert_eq!(text_of(&t), "\nCommand completed successfully\n");
}

#[test]
fn render_failure_status_with_code() {
    let t = render(&OutputLine::StatusFinal(false, Some(3)));
    assert_eq!(text_of(&t), "\nCommand failed with exit code: 3\n");
    let neg = render(&OutputLine::StatusFinal(false, Some(-7)));
    assert_eq!(text_of(&neg), "\nCommand failed with exit code: -7\n");
}

#[test]
fn render_signal_termination() {
    let t = render(&OutputLine::StatusFinal(false, None));
    assert_eq!(text_of(&t), "\nCommand failed (terminated by signal)\n");
}

#[test]
fn render_sentinel_is_invisible() {
    let t = render(&OutputLine::Sentinel);
    assert_eq!(t.len(), 0);
}

#[test]
fn trim_removes_edges_only() {
    assert_eq!(text_of(&trim(&cv("  a b \t"))), "a b");
    assert_eq!(text_of(&trim(&cv("ab"))), "ab");
    assert_eq!(text_of(&trim(&cv("   "))), "");
    assert_eq!(text_of(&trim(&cv("\u{00A0}a\u{3000}"))), "a");
}

#[test]
fn blank_detects_whitespace_only() {
    assert!(blank(&cv("")));
    assert!(blank(&cv(" \t\r\n")));
    assert!(blank(&cv("\u{00A0}\u{1680}\u{202F}")));
    assert!(!blank(&cv(" x ")));
}

#[test]
fn remove_occurrences_removes_each_match() {
    let got = remove_occurrences(&cv("x[INFO]y[INFO]z"), &cv("[INFO]"));
    assert_eq!(text_of(&got), "xyz");
}

#[test]
fn str_chars_round_trips() {
    let v = str_chars("Running: ");
    assert_eq!(text_of(&v), "Running: ");
}

#[test]
fn decimal_rendering_of_process_ids() {
    assert_eq!(text_of(&u64_dec(0)), "0");
    assert_eq!(text_of(&u64_dec(42)), "42");
    assert_eq!(text_of(&u64_dec(4294967295)), "4294967295");
}
