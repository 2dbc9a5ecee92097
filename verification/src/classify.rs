//! The line classifier: maps one raw output line and its origin stream to a
//! tagged line, or to nothing when the line is blank.
//!
//! Standard output defaults to `Plain`; standard error is pessimistically
//! surfaced, defaulting to `Warning` and promoting any line that mentions an
//! error to `Error`. Marker lines on standard output have the marker removed
//! and the remainder trimmed.
use vstd::prelude::*;
use vstd::slice::slice_to_vec;
use crate::lines::{LineModel, OutputLine, is_stream_line};
use crate::text::{
    blank, contains_seq, contains_sub, is_blank, lemma_remove_all_absent, lemma_trimmed_idempotent,
    remove_all, remove_occurrences, str_chars, trim, trimmed,
};

verus! {

pub open spec fn info_marker() -> Seq<char> {
    "[INFO]"@
}

pub open spec fn warn_marker() -> Seq<char> {
    "[WARN]"@
}

pub open spec fn error_marker() -> Seq<char> {
    "[ERROR]"@
}

pub open spec fn error_lower() -> Seq<char> {
    "error"@
}

pub open spec fn error_title() -> Seq<char> {
    "Error"@
}

pub open spec fn error_upper() -> Seq<char> {
    "ERROR"@
}

/// A marker line's payload: the line with every occurrence of the marker
/// removed and the remainder trimmed.
pub open spec fn stripped(line: Seq<char>, marker: Seq<char>) -> Seq<char> {
    trimmed(remove_all(line, marker))
}

/// Classification of a standard-output line. Rules in order, first match
/// wins: blank lines are dropped; a line containing `[INFO]`, `[WARN]` or
/// `[ERROR]` becomes `Info`, `Warning` or `Error` with the marker stripped;
/// anything else is `Plain`, unmodified.
pub open spec fn stdout_class(line: Seq<char>) -> Option<LineModel> {
    if is_blank(line) {
        None
    } else if contains_seq(line, info_marker()) {
        Some(LineModel::Info(stripped(line, info_marker())))
    } else if contains_seq(line, warn_marker()) {
        Some(LineModel::Warning(stripped(line, warn_marker())))
    } else if contains_seq(line, error_marker()) {
        Some(LineModel::Error(stripped(line, error_marker())))
    } else {
        Some(LineModel::Plain(line))
    }
}

/// Classification of a standard-error line. Blank lines are dropped; a line
/// containing `error`, `Error` or `ERROR` becomes `Error`, unmodified; else a
/// line containing `[INFO]` becomes `Info` with the marker stripped; anything
/// else is surfaced as `Warning`, unmodified.
pub open spec fn stderr_class(line: Seq<char>) -> Option<LineModel> {
    if is_blank(line) {
        None
    } else if contains_seq(line, error_lower()) || contains_seq(line, error_title())
        || contains_seq(line, error_upper()) {
        Some(LineModel::Error(line))
    } else if contains_seq(line, info_marker()) {
        Some(LineModel::Info(stripped(line, info_marker())))
    } else {
        Some(LineModel::Warning(line))
    }
}

pub fn classify_stdout(line: &[char]) -> (r: Option<OutputLine>)
    ensures
        r.deep_view() == stdout_class(line@),
        r is None <==> is_blank(line@),
{
    if blank(line) {
        return None;
    }
    let info = str_chars("[INFO]");
    let warn = str_chars("[WARN]");
    let error = str_chars("[ERROR]");
    proof {
        reveal_strlit("[INFO]");
        reveal_strlit("[WARN]");
        reveal_strlit("[ERROR]");
    }
    if contains_sub(line, info.as_slice()) {
        let removed = remove_occurrences(line, info.as_slice());
        Some(OutputLine::Info(trim(removed.as_slice())))
    } else if contains_sub(line, warn.as_slice()) {
        let removed = remove_occurrences(line, warn.as_slice());
        Some(OutputLine::Warning(trim(removed.as_slice())))
    } else if contains_sub(line, error.as_slice()) {
        let removed = remove_occurrences(line, error.as_slice());
        Some(OutputLine::Error(trim(removed.as_slice())))
    } else {
        Some(OutputLine::Plain(slice_to_vec(line)))
    }
}

pub fn classify_stderr(line: &[char]) -> (r: Option<OutputLine>)
    ensures
        r.deep_view() == stderr_class(line@),
        r is None <==> is_blank(line@),
{
    if blank(line) {
        return None;
    }
    let lower = str_chars("error");
    let title = str_chars("Error");
    let upper = str_chars("ERROR");
    if contains_sub(line, lower.as_slice()) || contains_sub(line, title.as_slice())
        || contains_sub(line, upper.as_slice()) {
        return Some(OutputLine::Error(slice_to_vec(line)));
    }
    let info = str_chars("[INFO]");
    proof {
        reveal_strlit("[INFO]");
    }
    if contains_sub(line, info.as_slice()) {
        let removed = remove_occurrences(line, info.as_slice());
        Some(OutputLine::Info(trim(removed.as_slice())))
    } else {
        Some(OutputLine::Warning(slice_to_vec(line)))
    }
}

/// Law: a classified line is a stream line — the classifier never produces a
/// status line or a sentinel, on either stream.
pub proof fn lemma_classified_is_stream_line(line: Seq<char>)
    ensures
        stdout_class(line) matches Some(l) ==> is_stream_line(l),
        stderr_class(line) matches Some(l) ==> is_stream_line(l),
{
}

/// Law: the payload of a marker line is already trimmed — trimming it again
/// changes nothing.
pub proof fn lemma_stripped_is_trimmed(line: Seq<char>, marker: Seq<char>)
    ensures
        trimmed(stripped(line, marker)) == stripped(line, marker),
{
    lemma_trimmed_idempotent(remove_all(line, marker));
}

/// Law: classification does not re-introduce markers. A non-blank text that
/// holds none of the three markers — such as the payload the classifier
/// produced for a marker line, whenever stripping left no marker behind —
/// re-classifies on standard output as `Plain` with the text unchanged.
pub proof fn lemma_reclassify_marker_free(t: Seq<char>)
    requires
        !is_blank(t),
        !contains_seq(t, info_marker()),
        !contains_seq(t, warn_marker()),
        !contains_seq(t, error_marker()),
    ensures
        stdout_class(t) == Some(LineModel::Plain(t)),
{
}

/// Law: removing a marker that does not occur in a line leaves the line
/// unchanged, so classifying marker-free text never alters its characters
/// beyond trimming.
pub proof fn lemma_strip_absent_marker(line: Seq<char>, marker: Seq<char>)
    requires
        marker.len() > 0,
        !contains_seq(line, marker),
    ensures
        stripped(line, marker) == trimmed(line),
{
    lemma_remove_all_absent(line, marker);
}

} // verus!
