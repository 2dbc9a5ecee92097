//! The presentation bridge's decisions: the header shown before an execution,
//! the banner lines some commands announce themselves with, and the pump that
//! turns a drained batch of lines into display text, stopping at the
//! sentinel.
//!
//! The bridge itself runs on the single schedule that owns the display; it
//! calls in here with plain values on every tick and applies the text that
//! comes back.
use vstd::prelude::*;
use crate::lines::{LineModel, OutputLine, render, rendered};
use crate::text::{contains_seq, contains_sub, has_prefix, push_chars, starts_with, str_chars};

verus! {

pub open spec fn rule_text() -> Seq<char> {
    "============================================================"@
}

/// The display header before an execution: an echo of the literal command,
/// then a rule.
pub open spec fn header_text(cmd: Seq<char>) -> Seq<char> {
    "Running: "@ + cmd + "\n"@ + rule_text() + "\n"@
}

pub fn header(cmd: &[char]) -> (r: Vec<char>)
    ensures
        r@ == header_text(cmd@),
{
    let mut r = str_chars("Running: ");
    push_chars(&mut r, cmd);
    let mut nl = str_chars("\n");
    r.append(&mut nl);
    let mut rule = str_chars("============================================================");
    r.append(&mut rule);
    let mut nl2 = str_chars("\n");
    r.append(&mut nl2);
    proof {
        assert(r@ =~= header_text(cmd@));
    }
    r
}

pub open spec fn sudo_guard_text() -> Seq<char> {
    "This command requires sudo privileges. Use the password dialog instead."@
}

/// A command may run directly only when it does not start with the elevation
/// wrapper; elevated commands go through the credential path instead.
pub open spec fn direct_run_allowed(cmd: Seq<char>) -> bool {
    !starts_with(cmd, "sudo"@)
}

/// The banner lines announced before a direct run, decided by the command's
/// text; a command that may not run directly gets the guard message alone.
pub open spec fn preamble_lines(cmd: Seq<char>) -> Seq<Seq<char>> {
    if starts_with(cmd, "sudo"@) {
        seq![sudo_guard_text()]
    } else if contains_seq(cmd, "monitor start"@) {
        seq![
            "Starting HARDN monitoring services..."@,
            "This will start real-time monitoring of your system security."@,
        ]
    } else if contains_seq(cmd, "monitor stop"@) {
        seq!["Stopping HARDN monitoring services..."@]
    } else if contains_seq(cmd, "audit"@) {
        seq![
            "Running comprehensive security audit..."@,
            "This may take several minutes to complete."@,
        ]
    } else if contains_seq(cmd, "backup"@) {
        seq!["Creating system configuration backup..."@]
    } else {
        Seq::empty()
    }
}

/// Decides what a direct run shows before anything executes: the banner
/// lines, and whether the run may proceed at all.
pub fn prepare_run(cmd: &[char]) -> (r: (Vec<Vec<char>>, bool))
    ensures
        r.0.deep_view() == preamble_lines(cmd@),
        r.1 == direct_run_allowed(cmd@),
{
    let sudo = str_chars("sudo");
    let mut banner: Vec<Vec<char>> = Vec::new();
    if has_prefix(cmd, sudo.as_slice()) {
        banner.push(str_chars(
            "This command requires sudo privileges. Use the password dialog instead.",
        ));
        proof {
            assert(banner.deep_view() =~~= preamble_lines(cmd@));
        }
        return (banner, false);
    }
    let monitor_start = str_chars("monitor start");
    let monitor_stop = str_chars("monitor stop");
    let audit = str_chars("audit");
    let backup = str_chars("backup");
    if contains_sub(cmd, monitor_start.as_slice()) {
        banner.push(str_chars("Starting HARDN monitoring services..."));
        banner.push(str_chars("This will start real-time monitoring of your system security."));
    } else if contains_sub(cmd, monitor_stop.as_slice()) {
        banner.push(str_chars("Stopping HARDN monitoring services..."));
    } else if contains_sub(cmd, audit.as_slice()) {
        banner.push(str_chars("Running comprehensive security audit..."));
        banner.push(str_chars("This may take several minutes to complete."));
    } else if contains_sub(cmd, backup.as_slice()) {
        banner.push(str_chars("Creating system configuration backup..."));
    }
    proof {
        assert(banner.deep_view() =~~= preamble_lines(cmd@));
    }
    (banner, true)
}

/// The display text of a drained batch: each line's rendering in arrival
/// order, up to but not including the first sentinel.
pub open spec fn pump_text(items: Seq<LineModel>) -> Seq<char>
    decreases items.len(),
{
    if items.len() == 0 {
        Seq::empty()
    } else if items[0] is Sentinel {
        Seq::empty()
    } else {
        rendered(items[0]) + pump_text(items.skip(1))
    }
}

/// Whether a drained batch contains the sentinel: once it does, the execution
/// is over and the bridge stops rescheduling itself.
pub open spec fn pump_finished(items: Seq<LineModel>) -> bool
    decreases items.len(),
{
    if items.len() == 0 {
        false
    } else if items[0] is Sentinel {
        true
    } else {
        pump_finished(items.skip(1))
    }
}

/// One bridge tick over a drained batch: returns the text to append to the
/// display and whether the sentinel arrived. Lines after the sentinel belong
/// to no execution and are discarded.
pub fn pump(items: &Vec<OutputLine>) -> (r: (Vec<char>, bool))
    ensures
        r.0@ == pump_text(items.deep_view()),
        r.1 == pump_finished(items.deep_view()),
{
    let ghost d = items.deep_view();
    let mut text: Vec<char> = Vec::new();
    let n = items.len();
    proof {
        assert(d.skip(0) =~= d);
        assert(text@ + pump_text(d) =~= pump_text(d));
    }
    let mut i: usize = 0;
    while i < n
        invariant
            i <= n,
            n == items@.len(),
            d == items.deep_view(),
            pump_text(d) == text@ + pump_text(d.skip(i as int)),
            pump_finished(d) == pump_finished(d.skip(i as int)),
        decreases n - i,
    {
        let cur = &items[i];
        proof {
            assert(d.skip(i as int)[0] == d[i as int]);
        }
        match cur {
            OutputLine::Sentinel => {
                return (text, true);
            },
            _ => {
                let piece = render(cur);
                proof {
                    assert(d.skip(i as int).skip(1) =~= d.skip(i as int + 1));
                    assert((text@ + piece@) + pump_text(d.skip(i as int + 1)) =~= text@ + (
                    rendered(d[i as int]) + pump_text(d.skip(i as int + 1))));
                }
                push_chars(&mut text, piece.as_slice());
            },
        }
        i = i + 1;
    }
    proof {
        assert(d.skip(n as int) =~= Seq::<LineModel>::empty());
        assert(text@ + pump_text(d.skip(n as int)) =~= text@);
    }
    (text, false)
}

} // verus!
