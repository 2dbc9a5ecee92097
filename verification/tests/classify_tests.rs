use hardn_core::classify::{classify_stderr, classify_stdout};
use hardn_core::lines::OutputLine;

fn cv(s: &str) -> Vec<char> {
    s.chars().collect()
}

#[test]
fn stdout_error_marker_stripped() {
    let line = cv("[ERROR] disk full");
    let got = classify_stdout(&line);
    assert_eq!(got, Some(OutputLine::Error(cv("disk full"))));
}

#[test]
fn stdout_info_marker_stripped_and_trimmed() {
    let line = cv("  [INFO]   all good  ");
    let got = classify_stdout(&line);
    assert_eq!(got, Some(OutputLine::Info(cv("all good"))));
}

#[test]
fn stdout_warn_marker_stripped() {
    let line = cv("[WARN] low disk space");
    let got = classify_stdout(&line);
    assert_eq!(got, Some(OutputLine::Warning(cv("low disk space"))));
}

#[test]
fn stdout_plain_line_unmodified() {
    let line = cv("hello");
    let got = classify_stdout(&line);
    assert_eq!(got, Some(OutputLine::Plain(cv("hello"))));
}

#[test]
fn stdout_blank_lines_dropped() {
    assert_eq!(classify_stdout(&cv("")), None);
    assert_eq!(classify_stdout(&cv("   ")), None);
    assert_eq!(classify_stdout(&cv(" \t ")), None);
}

#[test]
fn stderr_blank_lines_dropped() {
    assert_eq!(classify_stderr(&cv("")), None);
    assert_eq!(classify_stderr(&cv("  \t")), None);
}

#[test]
fn stderr_error_words_promote_unmodified() {
    let lower = cv("an error occurred");
    assert_eq!(classify_stderr(&lower), Some(OutputLine::Error(lower.clone())));
    let title = cv("Error: bad input");
    assert_eq!(classify_stderr(&title), Some(OutputLine::Error(title.clone())));
    let upper = cv("FATAL ERROR");
    assert_eq!(classify_stderr(&upper), Some(OutputLine::Error(upper.clone())));
}

#[test]
fn stderr_error_marker_kept_whole() {
    // "[ERROR]" contains "ERROR", so the error rule fires first and the line
    // stays unmodified, marker included.
    let line = cv("[ERROR] disk full");
    assert_eq!(classify_stderr(&line), Some(OutputLine::Error(line.clone())));
}

#[test]
fn stderr_info_marker_stripped() {
    let line = cv("[INFO] progress note");
    assert_eq!(classify_stderr(&line), Some(OutputLine::Info(cv("progress note"))));
}

#[test]
fn stderr_defaults_to_warning() {
    let line = cv("something unexpected");
    assert_eq!(classify_stderr(&line), Some(OutputLine::Warning(line.clone())));
}

#[test]
fn stdout_reclassify_stripped_text_is_plain() {
    // Strip a marker line, then classify the stripped text again: it comes
    // back as Plain with the text unchanged.
    let line = cv("[INFO] all good");
    let first = classify_stdout(&line);
    let text = match first {
        Some(OutputLine::Info(t)) => t,
        other => panic!("expected Info, got {:?}", other),
    };
    assert_eq!(text, cv("all good"));
    let again = classify_stdout(&text);
    assert_eq!(again, Some(OutputLine::Plain(cv("all good"))));
}

#[test]
fn stdout_marker_removal_is_single_pass() {
    // Removal scans left to right over non-overlapping matches, so removing
    // a marker can splice a new occurrence together; it is not removed again.
    let line = cv("[[INFO]INFO] x");
    let got = classify_stdout(&line);
    assert_eq!(got, Some(OutputLine::Info(cv("[INFO] x"))));
}

#[test]
fn stdout_info_rule_wins_over_warn() {
    let line = cv("[INFO] also mentions [WARN] here");
    let got = classify_stdout(&line);
    assert_eq!(got, Some(OutputLine::Info(cv("also mentions [WARN] here"))));
}

#[test]
fn unicode_whitespace_only_lines_dropped() {
    // No-break space, en quad, and ideographic space are whitespace: a line
    // of them is blank on either stream.
    assert_eq!(classify_stdout(&cv("\u{00A0}")), None);
    assert_eq!(classify_stdout(&cv("\u{2000}\u{3000}")), None);
    assert_eq!(classify_stderr(&cv("\u{00A0}\u{0085}")), None);
}

#[test]
fn unicode_whitespace_trimmed_from_marker_payload() {
    let line = cv("[INFO]\u{00A0}ready\u{2009}");
    assert_eq!(classify_stdout(&line), Some(OutputLine::Info(cv("ready"))));
}
