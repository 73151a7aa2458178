//! Watching a program in its container: what is read of its output, when it is
//! killed, and what is reported of it.

use vstd::prelude::*;
use vstd::utf8::{decode_utf8, valid_utf8};

verus! {

// ── Results ──────────────────────────────────────────────────────────────────

/// Structured metrics captured for every sandbox execution.
#[derive(Debug)]
pub struct SandboxMetrics {
    /// Wall-clock time from container spawn to process exit or kill, in milliseconds.
    pub execution_duration_ms: u128,
    /// Bytes captured on standard output, capped at `MAX_BUFFER_SIZE`.
    pub stdout_size: usize,
    /// Bytes captured on standard error, capped at `MAX_BUFFER_SIZE`.
    pub stderr_size: usize,
    /// Process exit code; none if the process was killed.
    pub exit_code: Option<i32>,
}

impl Default for SandboxMetrics {
    fn default() -> (r: Self)
        ensures
            r.execution_duration_ms == 0,
            r.stdout_size == 0,
            r.stderr_size == 0,
            r.exit_code is None,
    {
        SandboxMetrics {
            execution_duration_ms: 0,
            stdout_size: 0,
            stderr_size: 0,
            exit_code: None,
        }
    }
}

/// What an execution in the sandbox left behind.
pub struct SandboxExecutionResult {
    pub stdout: String,
    pub stderr: String,
    pub timed_out: bool,
    pub limit_exceeded: bool,
    pub metrics: SandboxMetrics,
}

// ── Limits ───────────────────────────────────────────────────────────────────

/// How many bytes are captured of an output stream, at which a running program is killed.
pub const MAX_BUFFER_SIZE: usize = 1_048_576;

/// Time after which a program is killed, in milliseconds.
pub const TIME_LIMIT_MS: u128 = 3000;

/// Time between two looks at a running program, in milliseconds.
pub const TICK_MS: u64 = 20;

/// Bytes that are read of an output stream at a time.
pub const CHUNK_SIZE: usize = 4096;

// ── Decoding ─────────────────────────────────────────────────────────────────

/// What `String::from_utf8_lossy` makes of `bytes`.
pub uninterp spec fn utf8_lossy(bytes: Seq<u8>) -> Seq<char>;

/// `String::from_utf8_lossy`: the text that `bytes` encode, with a replacement
/// character for what is no UTF-8. Where the replacement characters go is left to the
/// name `utf8_lossy`; of valid UTF-8 the result is the decoded text.
#[verifier::external_body]
fn from_utf8_lossy(bytes: &Vec<u8>) -> (r: String)
    ensures
        r@ == utf8_lossy(bytes@),
        valid_utf8(bytes@) ==> r@ == decode_utf8(bytes@),
{
    String::from_utf8_lossy(bytes).into_owned()
}

/// The outcome of a compile container: whether it succeeded, and its error output.
pub fn compile_report(success: bool, stderr: &Vec<u8>) -> (r: (bool, String))
    ensures
        r.0 == success,
        r.1@ == utf8_lossy(stderr@),
        valid_utf8(stderr@) ==> r.1@ == decode_utf8(stderr@),
{
    (success, from_utf8_lossy(stderr))
}

/// The report of a container that could not be started.
pub fn spawn_failure(error: &str) -> (r: String)
    ensures
        r@ == "Failed to spawn sandbox container: "@ + error@,
{
    let mut out: String = "Failed to spawn sandbox container: ".to_owned();
    out.append(error);
    out
}

/// The report of a container whose state could not be read.
pub fn monitoring_failure(error: &str) -> (r: String)
    ensures
        r@ == "Sandbox monitoring error: "@ + error@,
{
    let mut out: String = "Sandbox monitoring error: ".to_owned();
    out.append(error);
    out
}

// ── Monitor ──────────────────────────────────────────────────────────────────

/// What the monitor wants to know next.
#[derive(Debug, Clone, Copy, PartialEq, Eq, Structural)]
pub enum Probe {
    /// Whether the program still runs.
    Status,
    /// How long it has run.
    Clock,
    /// A chunk of its standard output.
    Stdout,
    /// A chunk of its standard error.
    Stderr,
    /// Nothing before a tick has passed.
    Tick,
}

/// What to do about the program.
#[derive(Debug, Clone, Copy, PartialEq, Eq, Structural)]
pub enum Directive {
    /// Find this out.
    Ask(Probe),
    /// Kill the program; the observation is over.
    Kill,
    /// The observation is over.
    Stop,
}

/// What was found out about the program.
#[derive(Debug)]
pub enum Observation {
    /// It has ended, with this code, and this much output was left in its pipes.
    Exited { exit_code: Option<i32>, stdout_rest: Vec<u8>, stderr_rest: Vec<u8> },
    /// It still runs.
    Running,
    /// It has run this long, in milliseconds.
    Elapsed { millis: u128 },
    /// A chunk of its standard output; empty where nothing could be read.
    StdoutChunk { bytes: Vec<u8> },
    /// A chunk of its standard error; empty where nothing could be read.
    StderrChunk { bytes: Vec<u8> },
    /// A tick has passed.
    Rested,
}

/// The watch over one program.
#[derive(Debug)]
pub struct ExecutionMonitor {
    stdout_buffer: Vec<u8>,
    stderr_buffer: Vec<u8>,
    timed_out: bool,
    limit_exceeded: bool,
    exit_code: Option<i32>,
    next: Option<Probe>,
}

/// The state of a watch.
pub struct Watch {
    /// Captured standard output, at most so much as the capture limit allows.
    pub stdout: Seq<u8>,
    /// Captured standard error, at most so much as the capture limit allows.
    pub stderr: Seq<u8>,
    /// Whether the program was killed for its time.
    pub timed_out: bool,
    /// Whether the program was killed for its output.
    pub limit_exceeded: bool,
    /// The code with which the program ended, if it ended by itself.
    pub exit_code: Option<i32>,
    /// What is asked next; nothing when the watch is over.
    pub next: Option<Probe>,
}

/// The watch at its beginning.
pub open spec fn fresh_watch() -> Watch {
    Watch {
        stdout: Seq::empty(),
        stderr: Seq::empty(),
        timed_out: false,
        limit_exceeded: false,
        exit_code: None,
        next: Some(Probe::Status),
    }
}

/// What is captured of a stream of which `bytes` come after what is captured already: no
/// more than the capture limit allows.
pub open spec fn captured(before: Seq<u8>, bytes: Seq<u8>) -> Seq<u8> {
    let all = before + bytes;
    if all.len() <= MAX_BUFFER_SIZE {
        all
    } else {
        all.take(MAX_BUFFER_SIZE as int)
    }
}

/// The watch after the observation `o`. One that does not answer what was asked
/// changes nothing.
pub open spec fn watched(w: Watch, o: Observation) -> Watch {
    match (w.next, o) {
        (
            Some(Probe::Status),
            Observation::Exited { exit_code, stdout_rest, stderr_rest },
        ) => Watch {
            stdout: captured(w.stdout, stdout_rest@),
            stderr: captured(w.stderr, stderr_rest@),
            exit_code,
            next: None,
            ..w
        },
        (Some(Probe::Status), Observation::Running) => Watch { next: Some(Probe::Clock), ..w },
        (Some(Probe::Clock), Observation::Elapsed { millis }) => if millis >= TIME_LIMIT_MS {
            Watch { timed_out: true, next: None, ..w }
        } else {
            Watch { next: Some(Probe::Stdout), ..w }
        },
        (Some(Probe::Stdout), Observation::StdoutChunk { bytes }) => {
            let stdout = captured(w.stdout, bytes@);
            if bytes@.len() > 0 && stdout.len() >= MAX_BUFFER_SIZE {
                Watch { stdout, limit_exceeded: true, next: None, ..w }
            } else {
                Watch { stdout, next: Some(Probe::Stderr), ..w }
            }
        },
        (Some(Probe::Stderr), Observation::StderrChunk { bytes }) => {
            let stderr = captured(w.stderr, bytes@);
            if bytes@.len() > 0 && stderr.len() >= MAX_BUFFER_SIZE {
                Watch { stderr, limit_exceeded: true, next: None, ..w }
            } else {
                Watch { stderr, next: Some(Probe::Tick), ..w }
            }
        },
        (Some(Probe::Tick), Observation::Rested) => Watch { next: Some(Probe::Status), ..w },
        _ => w,
    }
}

/// What is to be done about the program upon the observation `o`: a running program whose
/// watch ends is killed.
pub open spec fn directive(w: Watch, o: Observation) -> Directive {
    match watched(w, o).next {
        Some(probe) => Directive::Ask(probe),
        None => if w.next is Some && !(o is Exited) {
            Directive::Kill
        } else {
            Directive::Stop
        },
    }
}

/// The text that tells that a program was killed for its output.
pub open spec fn limit_alert() -> Seq<char> {
    "\n[SECURITY ALERT] HOST PIPE BOMB BLOCKED: Execution terminated. Stdout/Stderr threshold of 1 MB breached."@
}

/// Captures `bytes` after what is in `buffer` already.
fn capture(buffer: Vec<u8>, bytes: Vec<u8>) -> (r: Vec<u8>)
    ensures
        r@ == captured(buffer@, bytes@),
{
    let mut out: Vec<u8> = buffer;
    let mut more: Vec<u8> = bytes;
    out.append(&mut more);
    out.truncate(MAX_BUFFER_SIZE);
    assert(out@ =~= captured(buffer@, bytes@));
    out
}

impl ExecutionMonitor {
    /// No more is captured than the capture limit allows.
    #[verifier::type_invariant]
    spec fn inv(self) -> bool {
        self.stdout_buffer@.len() <= MAX_BUFFER_SIZE && self.stderr_buffer@.len()
            <= MAX_BUFFER_SIZE
    }

    /// Captures a part of the standard output, and says whether the limit is reached.
    fn capture_stdout(&mut self, bytes: Vec<u8>) -> (full: bool)
        ensures
            final(self).watch() == (Watch {
                stdout: captured(old(self).watch().stdout, bytes@),
                ..old(self).watch()
            }),
            full == (final(self).watch().stdout.len() >= MAX_BUFFER_SIZE),
    {
        proof {
            use_type_invariant(&*self);
        }
        let mut buffer: Vec<u8> = Vec::new();
        std::mem::swap(&mut buffer, &mut self.stdout_buffer);
        let all: Vec<u8> = capture(buffer, bytes);
        let full: bool = all.len() >= MAX_BUFFER_SIZE;
        self.stdout_buffer = all;
        full
    }

    /// Captures a part of the standard error, and says whether the limit is reached.
    fn capture_stderr(&mut self, bytes: Vec<u8>) -> (full: bool)
        ensures
            final(self).watch() == (Watch {
                stderr: captured(old(self).watch().stderr, bytes@),
                ..old(self).watch()
            }),
            full == (final(self).watch().stderr.len() >= MAX_BUFFER_SIZE),
    {
        proof {
            use_type_invariant(&*self);
        }
        let mut buffer: Vec<u8> = Vec::new();
        std::mem::swap(&mut buffer, &mut self.stderr_buffer);
        let all: Vec<u8> = capture(buffer, bytes);
        let full: bool = all.len() >= MAX_BUFFER_SIZE;
        self.stderr_buffer = all;
        full
    }

    /// The state of the watch.
    pub closed spec fn watch(&self) -> Watch {
        Watch {
            stdout: self.stdout_buffer@,
            stderr: self.stderr_buffer@,
            timed_out: self.timed_out,
            limit_exceeded: self.limit_exceeded,
            exit_code: self.exit_code,
            next: self.next,
        }
    }

    /// A watch over a program that was just started. The first question is whether it
    /// still runs.
    pub fn new() -> (r: Self)
        ensures
            r.watch() == fresh_watch(),
    {
        let m = ExecutionMonitor {
            stdout_buffer: Vec::new(),
            stderr_buffer: Vec::new(),
            timed_out: false,
            limit_exceeded: false,
            exit_code: None,
            next: Some(Probe::Status),
        };
        assert(m.watch().stdout =~= Seq::empty());
        assert(m.watch().stderr =~= Seq::empty());
        m
    }

    /// Takes in an observation and says what to do about the program.
    pub fn observe(&mut self, o: Observation) -> (d: Directive)
        ensures
            final(self).watch() == watched(old(self).watch(), o),
            d == directive(old(self).watch(), o),
    {
        proof {
            use_type_invariant(&*self);
        }
        let mut kill: bool = false;
        match (self.next, o) {
            (
                Some(Probe::Status),
                Observation::Exited { exit_code, stdout_rest, stderr_rest },
            ) => {
                self.capture_stdout(stdout_rest);
                self.capture_stderr(stderr_rest);
                self.exit_code = exit_code;
                self.next = None;
            },
            (Some(Probe::Status), Observation::Running) => {
                self.next = Some(Probe::Clock);
            },
            (Some(Probe::Clock), Observation::Elapsed { millis }) => {
                if millis >= TIME_LIMIT_MS {
                    self.timed_out = true;
                    self.next = None;
                    kill = true;
                } else {
                    self.next = Some(Probe::Stdout);
                }
            },
            (Some(Probe::Stdout), Observation::StdoutChunk { bytes }) => {
                let got: bool = bytes.len() > 0;
                let full: bool = self.capture_stdout(bytes);
                if got && full {
                    self.limit_exceeded = true;
                    self.next = None;
                    kill = true;
                } else {
                    self.next = Some(Probe::Stderr);
                }
            },
            (Some(Probe::Stderr), Observation::StderrChunk { bytes }) => {
                let got: bool = bytes.len() > 0;
                let full: bool = self.capture_stderr(bytes);
                if got && full {
                    self.limit_exceeded = true;
                    self.next = None;
                    kill = true;
                } else {
                    self.next = Some(Probe::Tick);
                }
            },
            (Some(Probe::Tick), Observation::Rested) => {
                self.next = Some(Probe::Status);
            },
            _ => {},
        }
        match self.next {
            Some(probe) => Directive::Ask(probe),
            None => if kill {
                Directive::Kill
            } else {
                Directive::Stop
            },
        }
    }

    /// What the execution left behind, given how long it took.
    pub fn finish(self, execution_duration_ms: u128) -> (r: SandboxExecutionResult)
        ensures
            r.stdout@ == utf8_lossy(self.watch().stdout),
            valid_utf8(self.watch().stdout) ==> r.stdout@ == decode_utf8(self.watch().stdout),
            valid_utf8(self.watch().stderr) ==> utf8_lossy(self.watch().stderr) == decode_utf8(
                self.watch().stderr,
            ),
            r.stderr@ == if self.watch().limit_exceeded {
                utf8_lossy(self.watch().stderr) + limit_alert()
            } else {
                utf8_lossy(self.watch().stderr)
            },
            r.timed_out == self.watch().timed_out,
            r.limit_exceeded == self.watch().limit_exceeded,
            r.metrics.execution_duration_ms == execution_duration_ms,
            r.metrics.stdout_size == self.watch().stdout.len(),
            r.metrics.stderr_size == self.watch().stderr.len(),
            r.metrics.stdout_size <= MAX_BUFFER_SIZE,
            r.metrics.stderr_size <= MAX_BUFFER_SIZE,
            r.metrics.exit_code == self.watch().exit_code,
    {
        proof {
            use_type_invariant(&self);
        }
        let stdout: String = from_utf8_lossy(&self.stdout_buffer);
        let mut stderr: String = from_utf8_lossy(&self.stderr_buffer);
        if self.limit_exceeded {
            stderr.append(
                "\n[SECURITY ALERT] HOST PIPE BOMB BLOCKED: Execution terminated. Stdout/Stderr threshold of 1 MB breached.",
            );
        }
        SandboxExecutionResult {
            stdout,
            stderr,
            timed_out: self.timed_out,
            limit_exceeded: self.limit_exceeded,
            metrics: SandboxMetrics {
                execution_duration_ms,
                stdout_size: self.stdout_buffer.len(),
                stderr_size: self.stderr_buffer.len(),
                exit_code: self.exit_code,
            },
        }
    }
}

// ── Laws ─────────────────────────────────────────────────────────────────────

/// The watch after the observations `os`, one after the other.
pub open spec fn watched_all(w: Watch, os: Seq<Observation>) -> Watch
    decreases os.len(),
{
    if os.len() == 0 {
        w
    } else {
        watched(watched_all(w, os.drop_last()), os.last())
    }
}

/// What holds of every watch: a program is killed for one reason only, a killed program
/// has no exit code, a program that is still watched, or was killed for its time, has
/// stayed below the capture limit, and one that was killed for its output has reached it.
pub open spec fn consistent(w: Watch) -> bool {
    &&& !(w.timed_out && w.limit_exceeded)
    &&& (w.timed_out || w.limit_exceeded) ==> w.exit_code is None && w.next is None
    &&& w.exit_code is Some ==> w.next is None
    &&& w.next is Some || w.timed_out ==> w.stdout.len() < MAX_BUFFER_SIZE && w.stderr.len()
        < MAX_BUFFER_SIZE
    &&& w.limit_exceeded ==> w.stdout.len() == MAX_BUFFER_SIZE || w.stderr.len()
        == MAX_BUFFER_SIZE
}

/// Every watch is consistent, whatever is observed.
pub proof fn law_watch_is_consistent(os: Seq<Observation>)
    ensures
        consistent(watched_all(fresh_watch(), os)),
    decreases os.len(),
{
    if os.len() > 0 {
        law_watch_is_consistent(os.drop_last());
    }
}

/// A program is killed for its time only upon a reading of the clock at or after the time
/// limit.
pub proof fn law_timeout_has_its_reading(os: Seq<Observation>)
    ensures
        watched_all(fresh_watch(), os).timed_out ==> exists|i: int|
            0 <= i < os.len() && (#[trigger] os[i] matches Observation::Elapsed { millis } && millis
                >= TIME_LIMIT_MS),
    decreases os.len(),
{
    if os.len() > 0 {
        let rest = os.drop_last();
        law_timeout_has_its_reading(rest);
        if watched_all(fresh_watch(), rest).timed_out {
            let i = choose|i: int|
                0 <= i < rest.len() && (#[trigger] rest[i] matches Observation::Elapsed { millis }
                    && millis >= TIME_LIMIT_MS);
            assert(os[i] == rest[i]);
        } else {
            assert(os[os.len() - 1] == os.last());
        }
    }
}

/// No more is captured of a stream than the capture limit allows, whatever is observed.
pub proof fn law_capture_is_bounded(os: Seq<Observation>)
    ensures
        watched_all(fresh_watch(), os).stdout.len() <= MAX_BUFFER_SIZE,
        watched_all(fresh_watch(), os).stderr.len() <= MAX_BUFFER_SIZE,
    decreases os.len(),
{
    if os.len() > 0 {
        law_capture_is_bounded(os.drop_last());
    }
}

/// What is captured is the beginning of what was written: nothing that was captured is
/// changed by what comes after it.
pub proof fn law_capture_only_grows(w: Watch, o: Observation)
    requires
        w.stdout.len() <= MAX_BUFFER_SIZE,
        w.stderr.len() <= MAX_BUFFER_SIZE,
    ensures
        w.stdout.is_prefix_of(watched(w, o).stdout),
        w.stderr.is_prefix_of(watched(w, o).stderr),
{
}

/// A program that has run for the time limit is killed at the next look at the clock,
/// and nothing is read of it afterwards.
pub proof fn law_time_limit_kills(w: Watch, millis: u128, o: Observation)
    requires
        w.next == Some(Probe::Clock),
        millis >= TIME_LIMIT_MS,
    ensures
        ({
            let killed = watched(w, Observation::Elapsed { millis });
            &&& killed.timed_out
            &&& directive(w, Observation::Elapsed { millis }) == Directive::Kill
            &&& watched(killed, o) == killed
        }),
{
}

/// An observation that is over stays as it is.
pub proof fn law_over_is_over(w: Watch, os: Seq<Observation>)
    requires
        w.next is None,
    ensures
        watched_all(w, os) == w,
    decreases os.len(),
{
    if os.len() > 0 {
        law_over_is_over(w, os.drop_last());
    }
}

/// What is observed of the standard output when it is asked for: the chunks, and at the end
/// the rest, whatever the program ends with.
pub open spec fn stdout_seen(os: Seq<Observation>) -> Seq<u8>
    decreases os.len(),
{
    if os.len() == 0 {
        Seq::empty()
    } else {
        let before = stdout_seen(os.drop_last());
        match (watched_all(fresh_watch(), os.drop_last()).next, os.last()) {
            (Some(Probe::Stdout), Observation::StdoutChunk { bytes }) => before + bytes@,
            (
                Some(Probe::Status),
                Observation::Exited { exit_code, stdout_rest, stderr_rest },
            ) => before + stdout_rest@,
            _ => before,
        }
    }
}

/// What is observed of the standard error when it is asked for: the chunks, and at the end
/// the rest, whatever the program ends with.
pub open spec fn stderr_seen(os: Seq<Observation>) -> Seq<u8>
    decreases os.len(),
{
    if os.len() == 0 {
        Seq::empty()
    } else {
        let before = stderr_seen(os.drop_last());
        match (watched_all(fresh_watch(), os.drop_last()).next, os.last()) {
            (Some(Probe::Stderr), Observation::StderrChunk { bytes }) => before + bytes@,
            (
                Some(Probe::Status),
                Observation::Exited { exit_code, stdout_rest, stderr_rest },
            ) => before + stderr_rest@,
            _ => before,
        }
    }
}

/// Whether `held` is `all`, or as much of its beginning as a megabyte holds.
pub open spec fn holds_all_that_fits(held: Seq<u8>, all: Seq<u8>) -> bool {
    &&& held.len() == if all.len() < 1_048_576 {
        all.len()
    } else {
        1_048_576
    }
    &&& forall|i: int| 0 <= i < held.len() ==> #[trigger] held[i] == all[i]
}

/// Nothing that is observed of a stream is lost before the capture limit: what is held of it
/// is all that was observed of it, one after the other, up to a megabyte.
pub proof fn law_everything_is_captured(os: Seq<Observation>)
    ensures
        holds_all_that_fits(watched_all(fresh_watch(), os).stdout, stdout_seen(os)),
        holds_all_that_fits(watched_all(fresh_watch(), os).stderr, stderr_seen(os)),
    decreases os.len(),
{
    if os.len() > 0 {
        law_everything_is_captured(os.drop_last());
    }
}

/// A program that ends by itself is reported with the code with which it ended and with all
/// that was left in its pipes, whatever the code; and it is not killed.
pub proof fn law_exit_is_taken_in_full(
    w: Watch,
    exit_code: Option<i32>,
    stdout_rest: Vec<u8>,
    stderr_rest: Vec<u8>,
)
    requires
        w.next == Some(Probe::Status),
    ensures
        ({
            let o = Observation::Exited { exit_code, stdout_rest, stderr_rest };
            let after = watched(w, o);
            &&& after.exit_code == exit_code
            &&& after.next is None
            &&& after.timed_out == w.timed_out
            &&& after.limit_exceeded == w.limit_exceeded
            &&& holds_all_that_fits(after.stdout, w.stdout + stdout_rest@)
            &&& holds_all_that_fits(after.stderr, w.stderr + stderr_rest@)
            &&& directive(w, o) == Directive::Stop
        }),
{
}

/// A program is killed exactly when the clock shows three seconds or more, or when a chunk
/// brings a stream to a megabyte or more; the reason is told, and nothing else.
pub proof fn law_program_is_killed_for_its_limits(w: Watch, o: Observation)
    ensures
        ({
            let late = w.next == Some(Probe::Clock) && (o matches Observation::Elapsed { millis }
                && millis >= 3000);
            let loud = w.next == Some(Probe::Stdout) && (o matches Observation::StdoutChunk {
                bytes,
            } && bytes@.len() > 0 && w.stdout.len() + bytes@.len() >= 1_048_576);
            let shrill = w.next == Some(Probe::Stderr) && (o matches Observation::StderrChunk {
                bytes,
            } && bytes@.len() > 0 && w.stderr.len() + bytes@.len() >= 1_048_576);
            let after = watched(w, o);
            &&& directive(w, o) == Directive::Kill <==> late || loud || shrill
            &&& after.timed_out == (w.timed_out || late)
            &&& after.limit_exceeded == (w.limit_exceeded || loud || shrill)
            &&& late || loud || shrill ==> after.next is None && after.exit_code == w.exit_code
        }),
{
}

/// A running program is asked for its state, the time, its output, its error output and a
/// rest, in this order and over again, as long as it stays within its limits.
pub proof fn law_questions_follow_each_other(w: Watch, o: Observation)
    ensures
        ({
            let d = directive(w, o);
            &&& w.next == Some(Probe::Status) && o is Running ==> d == Directive::Ask(Probe::Clock)
            &&& w.next == Some(Probe::Clock) && (o matches Observation::Elapsed { millis } && millis
                < 3000) ==> d == Directive::Ask(Probe::Stdout)
            &&& w.next == Some(Probe::Stdout) && (o matches Observation::StdoutChunk { bytes }
                && w.stdout.len() + bytes@.len() < 1_048_576) ==> d == Directive::Ask(Probe::Stderr)
            &&& w.next == Some(Probe::Stderr) && (o matches Observation::StderrChunk { bytes }
                && w.stderr.len() + bytes@.len() < 1_048_576) ==> d == Directive::Ask(Probe::Tick)
            &&& w.next == Some(Probe::Tick) && o is Rested ==> d == Directive::Ask(Probe::Status)
            &&& d matches Directive::Ask(probe) ==> watched(w, o).next == Some(probe)
        }),
{
}

/// An observation that was not asked for changes nothing.
pub proof fn law_unasked_observations_change_nothing(w: Watch, o: Observation)
    requires
        !match w.next {
            Some(Probe::Status) => o is Exited || o is Running,
            Some(Probe::Clock) => o is Elapsed,
            Some(Probe::Stdout) => o is StdoutChunk,
            Some(Probe::Stderr) => o is StderrChunk,
            Some(Probe::Tick) => o is Rested,
            None => false,
        },
    ensures
        watched(w, o) == w,
        directive(w, o) == match w.next {
            Some(probe) => Directive::Ask(probe),
            None => Directive::Stop,
        },
{
}

/// A watch begins with the question whether the program still runs, and with nothing captured
/// and nothing held against it.
pub proof fn law_watch_begins_with_the_status()
    ensures
        fresh_watch().next == Some(Probe::Status),
        fresh_watch().stdout.len() == 0,
        fresh_watch().stderr.len() == 0,
        !fresh_watch().timed_out,
        !fresh_watch().limit_exceeded,
        fresh_watch().exit_code is None,
{
}

/// Only the observation of a stream adds to what is captured of it, and only the end of the
/// program gives it a code.
pub proof fn law_observations_keep_to_their_stream(w: Watch, o: Observation)
    ensures
        ({
            let after = watched(w, o);
            let ended = w.next == Some(Probe::Status) && o is Exited;
            &&& after.stdout != w.stdout ==> ended || w.next == Some(Probe::Stdout)
            &&& after.stderr != w.stderr ==> ended || w.next == Some(Probe::Stderr)
            &&& !ended ==> after.exit_code == w.exit_code
        }),
{
}

} // verus!
