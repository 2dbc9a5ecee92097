//! The tagged lines that an execution emits, their mathematical model, and
//! their rendering as display text.
use vstd::prelude::*;
use crate::text::{int_chars, push_chars, str_chars};

verus! {

/// Mathematical model of an emitted line: the payload text as a character
/// sequence, the exit code as an unbounded integer.
pub enum LineModel {
    Info(Seq<char>),
    Warning(Seq<char>),
    Error(Seq<char>),
    Plain(Seq<char>),
    StatusFinal(bool, Option<int>),
    Sentinel,
}

/// A line bound for the presentation layer. `Info`, `Warning`, `Error` and
/// `Plain` carry classified output text; `StatusFinal` carries the outcome of
/// the process (success flag and exit code, absent when the process was killed
/// by a signal); `Sentinel` is the terminal marker after which no further line
/// of the same execution arrives.
#[derive(Debug, Clone, PartialEq, Eq)]
pub enum OutputLine {
    Info(Vec<char>),
    Warning(Vec<char>),
    Error(Vec<char>),
    Plain(Vec<char>),
    StatusFinal(bool, Option<i32>),
    Sentinel,
}

impl DeepView for OutputLine {
    type V = LineModel;

    open spec fn deep_view(&self) -> LineModel {
        match *self {
            OutputLine::Info(ref t) => LineModel::Info(t@),
            OutputLine::Warning(ref t) => LineModel::Warning(t@),
            OutputLine::Error(ref t) => LineModel::Error(t@),
            OutputLine::Plain(ref t) => LineModel::Plain(t@),
            OutputLine::StatusFinal(ok, code) => LineModel::StatusFinal(
                ok,
                match code {
                    Some(c) => Some(c as int),
                    None => None,
                },
            ),
            OutputLine::Sentinel => LineModel::Sentinel,
        }
    }
}

/// A stream line is one the classifier can produce: never a status, never a
/// sentinel.
pub open spec fn is_stream_line(l: LineModel) -> bool {
    l is Info || l is Warning || l is Error || l is Plain
}

pub open spec fn info_prefix() -> Seq<char> {
    "INFO: "@
}

pub open spec fn warning_prefix() -> Seq<char> {
    "WARNING: "@
}

pub open spec fn error_display_prefix() -> Seq<char> {
    "ERROR: "@
}

pub open spec fn newline() -> Seq<char> {
    "\n"@
}

pub open spec fn success_text() -> Seq<char> {
    "\nCommand completed successfully\n"@
}

pub open spec fn failure_prefix() -> Seq<char> {
    "\nCommand failed with exit code: "@
}

pub open spec fn signal_failure_text() -> Seq<char> {
    "\nCommand failed (terminated by signal)\n"@
}

/// The display text of one line. A sentinel renders as nothing: it is a
/// control marker, not output.
pub open spec fn rendered(l: LineModel) -> Seq<char> {
    match l {
        LineModel::Info(t) => info_prefix() + t + newline(),
        LineModel::Warning(t) => warning_prefix() + t + newline(),
        LineModel::Error(t) => error_display_prefix() + t + newline(),
        LineModel::Plain(t) => t + newline(),
        LineModel::StatusFinal(ok, code) => if ok {
            success_text()
        } else {
            match code {
                Some(c) => failure_prefix() + int_chars(c) + newline(),
                None => signal_failure_text(),
            }
        },
        LineModel::Sentinel => Seq::empty(),
    }
}

pub fn render(l: &OutputLine) -> (r: Vec<char>)
    ensures
        r@ == rendered(l.deep_view()),
{
    match l {
        OutputLine::Info(t) => {
            let mut r = str_chars("INFO: ");
            push_chars(&mut r, t.as_slice());
            r.push('\n');
            proof {
                reveal_strlit("\n");
                assert(r@ =~= info_prefix() + t@ + newline());
            }
            r
        },
        OutputLine::Warning(t) => {
            let mut r = str_chars("WARNING: ");
            push_chars(&mut r, t.as_slice());
            r.push('\n');
            proof {
                reveal_strlit("\n");
                assert(r@ =~= warning_prefix() + t@ + newline());
            }
            r
        },
        OutputLine::Error(t) => {
            let mut r = str_chars("ERROR: ");
            push_chars(&mut r, t.as_slice());
            r.push('\n');
            proof {
                reveal_strlit("\n");
                assert(r@ =~= error_display_prefix() + t@ + newline());
            }
            r
        },
        OutputLine::Plain(t) => {
            let mut r: Vec<char> = Vec::new();
            push_chars(&mut r, t.as_slice());
            r.push('\n');
            proof {
                reveal_strlit("\n");
                assert(r@ =~= t@ + newline());
            }
            r
        },
        OutputLine::StatusFinal(ok, code) => {
            if *ok {
                str_chars("\nCommand completed successfully\n")
            } else {
                match code {
                    Some(c) => {
                        let mut r = str_chars("\nCommand failed with exit code: ");
                        let mut digits = crate::text::i32_chars(*c);
                        r.append(&mut digits);
                        r.push('\n');
                        proof {
                            reveal_strlit("\n");
                            assert(r@ =~= failure_prefix() + int_chars(*c as int) + newline());
                        }
                        r
                    },
                    None => str_chars("\nCommand failed (terminated by signal)\n"),
                }
            }
        },
        OutputLine::Sentinel => Vec::new(),
    }
}

} // verus!
