//! The command execution engine's decision logic: what an execution emits on
//! every path, from the empty-command rejection through spawn failure, the
//! streamed output lines, and the terminal status and sentinel.
//!
//! The engine never performs the outside work itself. Spawning, reading the
//! two output streams, and waiting happen on worker threads outside this
//! crate; they hand the outcomes in as plain values and this module decides,
//! with a proof, which lines the presentation layer receives.
use vstd::prelude::*;
use crate::lines::{LineModel, OutputLine, is_stream_line};
use crate::registry::Registry;
use crate::text::{
    contains_seq, contains_sub, has_prefix, push_chars, starts_with, str_chars, tokenize, tokens,
};

verus! {

/// Commands that need the elevation dialog: those that start with `sudo` or
/// mention it as a separate word.
pub open spec fn needs_elevation(cmd: Seq<char>) -> bool {
    starts_with(cmd, "sudo"@) || contains_seq(cmd, "sudo "@)
}

pub fn requires_sudo(cmd: &[char]) -> (r: bool)
    ensures
        r == needs_elevation(cmd@),
{
    let marker = str_chars("sudo");
    let infix = str_chars("sudo ");
    has_prefix(cmd, marker.as_slice()) || contains_sub(cmd, infix.as_slice())
}

/// How a spawn attempt ended: the id of the started process, or the text of
/// the operating system's error.
#[derive(Debug, Clone, PartialEq, Eq)]
pub enum SpawnOutcome {
    Failed(Vec<char>),
    Started(u32),
}

/// How waiting for the process ended: the observed exit code, absent when
/// the process was killed by a signal, or the text of a wait error. Success
/// is not stored: it is exactly an exit code of zero, so no incoherent pair
/// of flag and code can be represented.
#[derive(Debug, Clone, PartialEq, Eq)]
pub enum WaitOutcome {
    Exited(Option<i32>),
    WaitError(Vec<char>),
}

/// An exit counts as a success exactly when the process exited with status
/// code zero; a signal-terminated process (no code) is a failure.
pub open spec fn exit_success(code: Option<i32>) -> bool {
    code == Some(0i32)
}

pub open spec fn empty_command_text() -> Seq<char> {
    "Error: Empty command"@
}

pub open spec fn spawn_error_prefix() -> Seq<char> {
    "Error starting command: "@
}

pub open spec fn wait_error_prefix() -> Seq<char> {
    "Error waiting for command: "@
}

/// The single line reporting a failed spawn.
pub open spec fn spawn_failure_model(msg: Seq<char>) -> LineModel {
    LineModel::Error(spawn_error_prefix() + msg)
}

/// The terminal line of an execution whose process was spawned: the observed
/// status, or an error line when even waiting failed.
pub open spec fn final_status(wait: WaitOutcome) -> LineModel {
    match wait {
        WaitOutcome::Exited(code) => LineModel::StatusFinal(
            exit_success(code),
            match code {
                Some(c) => Some(c as int),
                None => None,
            },
        ),
        WaitOutcome::WaitError(m) => LineModel::Error(wait_error_prefix() + m@),
    }
}

/// Everything one execution emits, in order. An empty command is rejected
/// with one error line; a spawn failure is reported with one error line; a
/// spawned process contributes its classified stream lines followed by the
/// terminal status. Every path ends with exactly one sentinel.
pub open spec fn execution_lines(
    cmd: Seq<char>,
    spawn: SpawnOutcome,
    stream: Seq<LineModel>,
    wait: WaitOutcome,
) -> Seq<LineModel> {
    if tokens(cmd).len() == 0 {
        seq![LineModel::Error(empty_command_text()), LineModel::Sentinel]
    } else {
        match spawn {
            SpawnOutcome::Failed(m) => seq![spawn_failure_model(m@), LineModel::Sentinel],
            SpawnOutcome::Started(_) => stream + seq![final_status(wait), LineModel::Sentinel],
        }
    }
}

/// The two lines that reject an empty or blank command; no process is
/// spawned.
pub fn empty_command_lines() -> (r: Vec<OutputLine>)
    ensures
        r.deep_view() == seq![LineModel::Error(empty_command_text()), LineModel::Sentinel],
{
    let mut r: Vec<OutputLine> = Vec::new();
    r.push(OutputLine::Error(str_chars("Error: Empty command")));
    r.push(OutputLine::Sentinel);
    proof {
        assert(r.deep_view() =~= seq![
            LineModel::Error(empty_command_text()),
            LineModel::Sentinel,
        ]);
    }
    r
}

/// The two lines that report a failed spawn; no registry entry is created.
pub fn spawn_failure_lines(msg: &[char]) -> (r: Vec<OutputLine>)
    ensures
        r.deep_view() == seq![spawn_failure_model(msg@), LineModel::Sentinel],
{
    let mut t = str_chars("Error starting command: ");
    push_chars(&mut t, msg);
    let mut r: Vec<OutputLine> = Vec::new();
    r.push(OutputLine::Error(t));
    r.push(OutputLine::Sentinel);
    proof {
        assert(r.deep_view() =~= seq![spawn_failure_model(msg@), LineModel::Sentinel]);
    }
    r
}

/// The two lines that close an execution whose process was spawned: the
/// terminal status for the observed wait outcome, then the sentinel.
pub fn completion_lines(wait: WaitOutcome) -> (r: Vec<OutputLine>)
    ensures
        r.deep_view() == seq![final_status(wait), LineModel::Sentinel],
{
    let mut r: Vec<OutputLine> = Vec::new();
    match wait {
        WaitOutcome::Exited(code) => {
            let ok = match code {
                Some(c) => c == 0,
                None => false,
            };
            r.push(OutputLine::StatusFinal(ok, code));
        },
        WaitOutcome::WaitError(m) => {
            let mut t = str_chars("Error waiting for command: ");
            push_chars(&mut t, m.as_slice());
            r.push(OutputLine::Error(t));
        },
    }
    r.push(OutputLine::Sentinel);
    proof {
        assert(r.deep_view() =~= seq![final_status(wait), LineModel::Sentinel]);
    }
    r
}

/// Assembles everything one execution emits, given the command, the spawn
/// outcome, the classified stream lines in arrival order, and the wait
/// outcome.
pub fn collect_execution(
    cmd: &[char],
    spawn: SpawnOutcome,
    stream: Vec<OutputLine>,
    wait: WaitOutcome,
) -> (r: Vec<OutputLine>)
    ensures
        r.deep_view() == execution_lines(cmd@, spawn, stream.deep_view(), wait),
{
    let toks = tokenize(cmd);
    if toks.len() == 0 {
        empty_command_lines()
    } else {
        match spawn {
            SpawnOutcome::Failed(m) => spawn_failure_lines(m.as_slice()),
            SpawnOutcome::Started(_) => {
                let ghost orig = stream.deep_view();
                let mut r = stream;
                let mut tail = completion_lines(wait);
                r.append(&mut tail);
                proof {
                    assert(r.deep_view() =~= orig + seq![
                        final_status(wait),
                        LineModel::Sentinel,
                    ]);
                }
                r
            },
        }
    }
}

/// The number of sentinels among the lines.
pub open spec fn count_sentinels(s: Seq<LineModel>) -> nat
    decreases s.len(),
{
    if s.len() == 0 {
        0
    } else {
        (if s[0] is Sentinel {
            1nat
        } else {
            0nat
        }) + count_sentinels(s.skip(1))
    }
}

/// The number of terminal status lines among the lines.
pub open spec fn count_status(s: Seq<LineModel>) -> nat
    decreases s.len(),
{
    if s.len() == 0 {
        0
    } else {
        (if s[0] is StatusFinal {
            1nat
        } else {
            0nat
        }) + count_status(s.skip(1))
    }
}

/// Stream lines contribute no sentinel and no status line.
pub proof fn lemma_stream_counts_zero(s: Seq<LineModel>)
    requires
        forall|i: int| 0 <= i < s.len() ==> is_stream_line(s[i]),
    ensures
        count_sentinels(s) == 0,
        count_status(s) == 0,
    decreases s.len(),
{
    if s.len() > 0 {
        assert(forall|i: int| 0 <= i < s.skip(1).len() ==> s.skip(1)[i] == s[i + 1]);
        lemma_stream_counts_zero(s.skip(1));
    }
}

/// Both counts distribute over concatenation.
pub proof fn lemma_counts_concat(s: Seq<LineModel>, t: Seq<LineModel>)
    ensures
        count_sentinels(s + t) == count_sentinels(s) + count_sentinels(t),
        count_status(s + t) == count_status(s) + count_status(t),
    decreases s.len(),
{
    if s.len() == 0 {
        assert(s + t =~= t);
    } else {
        assert((s + t).skip(1) =~= s.skip(1) + t);
        assert((s + t)[0] == s[0]);
        lemma_counts_concat(s.skip(1), t);
    }
}

proof fn lemma_terminal_pair_counts(l: LineModel)
    requires
        !(l is Sentinel),
    ensures
        count_sentinels(seq![l, LineModel::Sentinel]) == 1,
        count_status(seq![l, LineModel::Sentinel]) == (if l is StatusFinal {
            1nat
        } else {
            0nat
        }),
{
    let two = seq![l, LineModel::Sentinel];
    assert(two.skip(1) =~= seq![LineModel::Sentinel]);
    assert(seq![LineModel::Sentinel].skip(1) =~= Seq::<LineModel>::empty());
    assert(count_sentinels(Seq::<LineModel>::empty()) == 0);
    assert(count_status(Seq::<LineModel>::empty()) == 0);
    assert(count_sentinels(seq![LineModel::Sentinel]) == 1);
    assert(count_status(seq![LineModel::Sentinel]) == 0);
}

/// Law: whatever the spawn and wait outcomes and whatever stream lines the
/// classifiers produced, an execution emits exactly one sentinel, and it is
/// the last line emitted.
pub proof fn lemma_sentinel_terminal(
    cmd: Seq<char>,
    spawn: SpawnOutcome,
    stream: Seq<LineModel>,
    wait: WaitOutcome,
)
    requires
        forall|i: int| 0 <= i < stream.len() ==> is_stream_line(#[trigger] stream[i]),
    ensures
        execution_lines(cmd, spawn, stream, wait).len() > 0,
        execution_lines(cmd, spawn, stream, wait).last() == LineModel::Sentinel,
        count_sentinels(execution_lines(cmd, spawn, stream, wait)) == 1,
{
    let t = execution_lines(cmd, spawn, stream, wait);
    if tokens(cmd).len() == 0 {
        lemma_terminal_pair_counts(LineModel::Error(empty_command_text()));
    } else {
        match spawn {
            SpawnOutcome::Failed(m) => {
                lemma_terminal_pair_counts(spawn_failure_model(m@));
            },
            SpawnOutcome::Started(_) => {
                let tail = seq![final_status(wait), LineModel::Sentinel];
                lemma_counts_concat(stream, tail);
                lemma_stream_counts_zero(stream);
                lemma_terminal_pair_counts(final_status(wait));
                assert(t.last() == tail[1]);
            },
        }
    }
}

/// Law: an execution emits no terminal status line on the empty-command,
/// spawn-failure and wait-failure paths, and exactly one when its process was
/// spawned and its exit status observed.
pub proof fn lemma_status_line_count(
    cmd: Seq<char>,
    spawn: SpawnOutcome,
    stream: Seq<LineModel>,
    wait: WaitOutcome,
)
    requires
        forall|i: int| 0 <= i < stream.len() ==> is_stream_line(#[trigger] stream[i]),
    ensures
        count_status(execution_lines(cmd, spawn, stream, wait)) == (if tokens(cmd).len() > 0
            && spawn is Started && wait is Exited {
            1nat
        } else {
            0nat
        }),
{
    if tokens(cmd).len() == 0 {
        lemma_terminal_pair_counts(LineModel::Error(empty_command_text()));
    } else {
        match spawn {
            SpawnOutcome::Failed(m) => {
                lemma_terminal_pair_counts(spawn_failure_model(m@));
            },
            SpawnOutcome::Started(_) => {
                let tail = seq![final_status(wait), LineModel::Sentinel];
                lemma_counts_concat(stream, tail);
                lemma_stream_counts_zero(stream);
                lemma_terminal_pair_counts(final_status(wait));
            },
        }
    }
}

/// The invocation of the credential path: the elevated command, run through a
/// command interpreter, with nothing interpolated into its text. The argv is
/// a function of the command alone — the secret never appears in an argument
/// or shell string, where it would be observable while the child runs. It
/// travels separately, as a one-line payload written to the child's input
/// (`secret_line`), from which the elevation mechanism reads exactly one
/// line. This deviates from piping an `echo` of the secret through the
/// interpreter, which materialized the secret in the invocation text.
pub open spec fn elevated_argv(cmd: Seq<char>) -> Seq<Seq<char>> {
    seq!["bash"@, "-c"@, cmd]
}

pub fn privileged_invocation(cmd: &[char]) -> (argv: Vec<Vec<char>>)
    ensures
        argv.deep_view() == elevated_argv(cmd@),
{
    let mut argv: Vec<Vec<char>> = Vec::new();
    argv.push(str_chars("bash"));
    argv.push(str_chars("-c"));
    argv.push(vstd::slice::slice_to_vec(cmd));
    proof {
        assert(argv.deep_view() =~~= elevated_argv(cmd@));
    }
    argv
}

/// The one-line payload the driver writes to the privileged child's input:
/// exactly the secret, terminated by one newline. It exists only for the
/// injection step and is never retained, logged, or echoed to any output
/// line.
pub open spec fn secret_payload(secret: Seq<char>) -> Seq<char> {
    secret + "\n"@
}

pub fn secret_line(secret: &[char]) -> (payload: Vec<char>)
    ensures
        payload@ == secret_payload(secret@),
{
    let mut payload = vstd::slice::slice_to_vec(secret);
    let mut nl = str_chars("\n");
    payload.append(&mut nl);
    payload
}

/// The environment forced into every spawned child: non-interactive package
/// management, and automatic service restarts without prompting.
pub fn child_env() -> (r: Vec<(Vec<char>, Vec<char>)>)
    ensures
        r@.len() == 2,
        r@[0].0@ == "DEBIAN_FRONTEND"@,
        r@[0].1@ == "noninteractive"@,
        r@[1].0@ == "NEEDRESTART_MODE"@,
        r@[1].1@ == "a"@,
{
    let mut r: Vec<(Vec<char>, Vec<char>)> = Vec::new();
    r.push((str_chars("DEBIAN_FRONTEND"), str_chars("noninteractive")));
    r.push((str_chars("NEEDRESTART_MODE"), str_chars("a")));
    r
}

/// The spawn plan for a command: the argument vector to spawn — the first
/// token is the program, the rest its arguments — or the two rejection lines
/// when the command holds no token at all.
pub fn plan_spawn(cmd: &[char]) -> (r: Result<Vec<Vec<char>>, Vec<OutputLine>>)
    ensures
        r matches Ok(argv) ==> argv.deep_view() == tokens(cmd@) && tokens(cmd@).len() > 0,
        r matches Err(lines) ==> lines.deep_view() == seq![
            LineModel::Error(empty_command_text()),
            LineModel::Sentinel,
        ] && tokens(cmd@).len() == 0,
{
    let argv = tokenize(cmd);
    if argv.len() == 0 {
        Err(empty_command_lines())
    } else {
        Ok(argv)
    }
}

/// The step taken when the spawn attempt resolves. A started process is
/// registered before any of its output is forwarded; a failed spawn leaves
/// the registry untouched and yields its two terminal lines.
pub fn on_spawn(spawn: &SpawnOutcome, registry: &mut Registry) -> (r: Vec<OutputLine>)
    requires
        old(registry).wf(),
    ensures
        final(registry).wf(),
        spawn matches SpawnOutcome::Started(pid) ==> final(registry)@ == old(registry)@.insert(
            *pid,
        ) && r.deep_view() == Seq::<LineModel>::empty(),
        spawn matches SpawnOutcome::Failed(m) ==> final(registry)@ == old(registry)@
            && r.deep_view() == seq![spawn_failure_model(m@), LineModel::Sentinel],
{
    match spawn {
        SpawnOutcome::Started(pid) => {
            registry.register(*pid);
            let r: Vec<OutputLine> = Vec::new();
            proof {
                assert(r.deep_view() =~= Seq::<LineModel>::empty());
            }
            r
        },
        SpawnOutcome::Failed(m) => spawn_failure_lines(m.as_slice()),
    }
}

/// The step taken when the process's exit is observed: the id leaves the
/// registry, and the terminal status and the sentinel are emitted, in that
/// order.
pub fn on_exit(pid: u32, wait: WaitOutcome, registry: &mut Registry) -> (r: Vec<OutputLine>)
    requires
        old(registry).wf(),
    ensures
        final(registry).wf(),
        final(registry)@ == old(registry)@.remove(pid),
        r.deep_view() == seq![final_status(wait), LineModel::Sentinel],
{
    registry.unregister(pid);
    completion_lines(wait)
}

} // verus!
