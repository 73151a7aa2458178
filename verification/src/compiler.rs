//! Languages, their runtimes, the plan of the compile phase, and what is kept of a
//! compiler's error output.

use vstd::prelude::*;

use crate::clock::nanos_since_epoch;
use crate::text;

verus! {

// ── Languages and runtimes ───────────────────────────────────────────────────

/// Supported sandbox execution languages.
#[derive(Debug, Clone, Copy, PartialEq, Eq, Structural)]
pub enum Language {
    Rust,
    Python,
}

/// Per-language runtime configuration. All container invocation details live here;
/// nothing in the execution flow depends on a language by name.
#[derive(Debug, Clone)]
pub struct RuntimeConfig {
    /// Container image for both the compile and the run phase.
    pub image_name: &'static str,
    /// Arguments of the compile step; none, or an empty list, for an interpreted
    /// language. Placeholders: `{INPUT}` is the source file, `{OUTPUT}` the binary.
    pub compile_args: Option<Vec<&'static str>>,
    /// Arguments of the run step. Placeholders: `{BINARY}` is the binary of a compiled
    /// language and the source file of an interpreted one, `{INPUT}` the source file.
    pub run_args: Vec<&'static str>,
    /// Extension of the source file in the job directory.
    pub source_extension: &'static str,
}

/// The source file of a job in the directory `dir`.
pub open spec fn source_path(dir: Seq<char>, extension: Seq<char>) -> Seq<char> {
    dir + "/main."@ + extension
}

/// The binary of a job in the directory `dir`.
pub open spec fn binary_path(dir: Seq<char>) -> Seq<char> {
    dir + "/app"@
}

/// A compile argument with its placeholders resolved, first `{INPUT}`, then `{OUTPUT}`.
pub open spec fn resolved_compile_arg(
    arg: Seq<char>,
    source: Seq<char>,
    binary: Seq<char>,
) -> Seq<char> {
    text::replace_all(text::replace_all(arg, "{INPUT}"@, source), "{OUTPUT}"@, binary)
}

/// A run argument with its placeholders resolved, first `{BINARY}`, then `{INPUT}`.
pub open spec fn resolved_run_arg(
    arg: Seq<char>,
    program: Seq<char>,
    source: Seq<char>,
) -> Seq<char> {
    text::replace_all(text::replace_all(arg, "{BINARY}"@, program), "{INPUT}"@, source)
}

/// The source file of a job in the directory `dir`.
fn source_path_of(dir: &str, extension: &str) -> (r: String)
    ensures
        r@ == source_path(dir@, extension@),
{
    let mut out: String = dir.to_owned();
    out.append("/main.");
    out.append(extension);
    out
}

/// The binary of a job in the directory `dir`.
fn binary_path_of(dir: &str) -> (r: String)
    ensures
        r@ == binary_path(dir@),
{
    let mut out: String = dir.to_owned();
    out.append("/app");
    out
}

impl RuntimeConfig {
    /// Whether the language has no compile phase.
    pub open spec fn interpreted(&self) -> bool {
        match self.compile_args {
            Some(args) => args@.len() == 0,
            None => true,
        }
    }

    /// Whether the arguments open a brace only for a placeholder.
    pub open spec fn tidy(&self) -> bool {
        &&& self.compile_args matches Some(args) ==> forall|i: int|
            0 <= i < args@.len() ==> text::only_begins(
                (#[trigger] args@[i])@,
                '{',
                "{INPUT}"@,
                "{OUTPUT}"@,
            )
        &&& forall|i: int|
            0 <= i < self.run_args@.len() ==> text::only_begins(
                (#[trigger] self.run_args@[i])@,
                '{',
                "{BINARY}"@,
                "{INPUT}"@,
            )
    }

    /// What `{BINARY}` stands for in the directory `dir`.
    pub open spec fn program_path(&self, dir: Seq<char>) -> Seq<char> {
        if self.interpreted() {
            source_path(dir, self.source_extension@)
        } else {
            binary_path(dir)
        }
    }

    /// The compile arguments with `dir` for the directory of the job.
    pub open spec fn compile_argv(&self, dir: Seq<char>) -> Option<Seq<Seq<char>>> {
        match self.compile_args {
            Some(args) => Some(
                Seq::new(
                    args@.len(),
                    |i: int|
                        resolved_compile_arg(
                            args@[i]@,
                            source_path(dir, self.source_extension@),
                            binary_path(dir),
                        ),
                ),
            ),
            None => None,
        }
    }

    /// The run arguments with `dir` for the directory of the job.
    pub open spec fn run_argv(&self, dir: Seq<char>) -> Seq<Seq<char>> {
        Seq::new(
            self.run_args@.len(),
            |i: int|
                resolved_run_arg(
                    self.run_args@[i]@,
                    self.program_path(dir),
                    source_path(dir, self.source_extension@),
                ),
        )
    }

    /// The runtime of `lang`.
    pub fn for_language(lang: &Language) -> (r: Self)
        ensures
            *lang == Language::Rust ==> {
                &&& r.image_name@ == "miller-rust-runner"@
                &&& r.compile_args matches Some(args) && text::slice_texts(args@) == seq![
                    "rustc"@,
                    "{INPUT}"@,
                    "-o"@,
                    "{OUTPUT}"@,
                ]
                &&& text::slice_texts(r.run_args@) == seq!["{BINARY}"@]
                &&& r.source_extension@ == "rs"@
            },
            *lang == Language::Python ==> {
                &&& r.image_name@ == "miller-python-runner"@
                &&& r.compile_args is None
                &&& text::slice_texts(r.run_args@) == seq!["python3"@, "{INPUT}"@]
                &&& r.source_extension@ == "py"@
            },
            r.tidy(),
    {
        proof {
            lemma_placeholders();
            lemma_placeholder_is_tidy("{INPUT}"@);
            lemma_placeholder_is_tidy("{OUTPUT}"@);
            lemma_placeholder_is_tidy("{BINARY}"@);
            reveal_strlit("rustc");
            reveal_strlit("-o");
            reveal_strlit("python3");
        }
        match lang {
            Language::Rust => {
                let compile: Vec<&'static str> = vec!["rustc", "{INPUT}", "-o", "{OUTPUT}"];
                let run: Vec<&'static str> = vec!["{BINARY}"];
                assert(text::slice_texts(compile@) =~= seq![
                    "rustc"@,
                    "{INPUT}"@,
                    "-o"@,
                    "{OUTPUT}"@,
                ]);
                assert(text::slice_texts(run@) =~= seq!["{BINARY}"@]);
                RuntimeConfig {
                    image_name: "miller-rust-runner",
                    compile_args: Some(compile),
                    run_args: run,
                    source_extension: "rs",
                }
            },
            Language::Python => {
                let run: Vec<&'static str> = vec!["python3", "{INPUT}"];
                assert(text::slice_texts(run@) =~= seq!["python3"@, "{INPUT}"@]);
                RuntimeConfig {
                    image_name: "miller-python-runner",
                    compile_args: None,
                    run_args: run,
                    source_extension: "py",
                }
            },
        }
    }

    /// The command that checks a whole project of `lang` at the workspace of a container.
    pub fn workspace_check_args(lang: &Language) -> (r: Vec<&'static str>)
        ensures
            text::slice_texts(r@) == match lang {
                Language::Rust => seq![
                    "cargo"@,
                    "check"@,
                    "--manifest-path"@,
                    "/workspace/Cargo.toml"@,
                ],
                Language::Python => seq!["python3"@, "-m"@, "compileall"@, "-q"@, "/workspace"@],
            },
    {
        let r: Vec<&'static str> = match lang {
            Language::Rust => vec!["cargo", "check", "--manifest-path", "/workspace/Cargo.toml"],
            Language::Python => vec!["python3", "-m", "compileall", "-q", "/workspace"],
        };
        assert(text::slice_texts(r@) =~= match lang {
            Language::Rust => seq!["cargo"@, "check"@, "--manifest-path"@, "/workspace/Cargo.toml"@],
            Language::Python => seq!["python3"@, "-m"@, "compileall"@, "-q"@, "/workspace"@],
        });
        r
    }

    /// The command that runs a whole project of `lang` at the workspace of a container.
    pub fn workspace_run_args(lang: &Language) -> (r: Vec<&'static str>)
        ensures
            text::slice_texts(r@) == match lang {
                Language::Rust => seq![
                    "cargo"@,
                    "run"@,
                    "--quiet"@,
                    "--manifest-path"@,
                    "/workspace/Cargo.toml"@,
                ],
                Language::Python => seq!["python3"@, "/workspace/main.py"@],
            },
    {
        let r: Vec<&'static str> = match lang {
            Language::Rust => vec![
                "cargo",
                "run",
                "--quiet",
                "--manifest-path",
                "/workspace/Cargo.toml",
            ],
            Language::Python => vec!["python3", "/workspace/main.py"],
        };
        assert(text::slice_texts(r@) =~= match lang {
            Language::Rust => seq![
                "cargo"@,
                "run"@,
                "--quiet"@,
                "--manifest-path"@,
                "/workspace/Cargo.toml"@,
            ],
            Language::Python => seq!["python3"@, "/workspace/main.py"@],
        });
        r
    }

    /// Whether the language has no compile phase.
    pub fn is_interpreted(&self) -> (r: bool)
        ensures
            r == self.interpreted(),
    {
        match &self.compile_args {
            Some(args) => args.len() == 0,
            None => true,
        }
    }

    /// Resolves the compile arguments with the paths of a job in `job_dir`.
    pub fn resolved_compile_args(&self, job_dir: &str) -> (r: Option<Vec<String>>)
        ensures
            match r {
                Some(args) => self.compile_argv(job_dir@) == Some(text::texts(args@)),
                None => self.compile_argv(job_dir@) is None,
            },
    {
        let args: &Vec<&'static str> = match &self.compile_args {
            Some(args) => args,
            None => {
                return None;
            },
        };
        let source: String = source_path_of(job_dir, self.source_extension);
        let binary: String = binary_path_of(job_dir);
        proof {
            reveal_strlit("{INPUT}");
            reveal_strlit("{OUTPUT}");
        }
        let mut out: Vec<String> = Vec::new();
        let mut i: usize = 0;
        while i < args.len()
            invariant
                i <= args@.len(),
                out@.len() == i,
                "{INPUT}"@.len() > 0,
                "{OUTPUT}"@.len() > 0,
                forall|k: int|
                    0 <= k < i ==> (#[trigger] out@[k])@ == resolved_compile_arg(
                        args@[k]@,
                        source@,
                        binary@,
                    ),
            decreases args@.len() - i,
        {
            let once: String = text::replace(args[i], "{INPUT}", source.as_str());
            out.push(text::replace(once.as_str(), "{OUTPUT}", binary.as_str()));
            i = i + 1;
        }
        assert(self.compile_argv(job_dir@)->0 =~= text::texts(out@));
        Some(out)
    }

    /// Resolves the run arguments with the paths of a job in `job_dir`.
    pub fn resolved_run_args(&self, job_dir: &str) -> (r: Vec<String>)
        ensures
            text::texts(r@) == self.run_argv(job_dir@),
    {
        let source: String = source_path_of(job_dir, self.source_extension);
        let program: String = if self.is_interpreted() {
            source_path_of(job_dir, self.source_extension)
        } else {
            binary_path_of(job_dir)
        };
        proof {
            reveal_strlit("{INPUT}");
            reveal_strlit("{BINARY}");
        }
        let mut out: Vec<String> = Vec::new();
        let mut i: usize = 0;
        while i < self.run_args.len()
            invariant
                i <= self.run_args@.len(),
                out@.len() == i,
                "{INPUT}"@.len() > 0,
                "{BINARY}"@.len() > 0,
                forall|k: int|
                    0 <= k < i ==> (#[trigger] out@[k])@ == resolved_run_arg(
                        self.run_args@[k]@,
                        program@,
                        source@,
                    ),
            decreases self.run_args@.len() - i,
        {
            let once: String = text::replace(self.run_args[i], "{BINARY}", program.as_str());
            out.push(text::replace(once.as_str(), "{INPUT}", source.as_str()));
            i = i + 1;
        }
        assert(self.run_argv(job_dir@) =~= text::texts(out@));
        out
    }
}

/// Whether `s` holds no opening brace, with which every placeholder begins.
pub open spec fn opens_nothing(s: Seq<char>) -> bool {
    forall|i: int| 0 <= i < s.len() ==> #[trigger] s[i] != '{'
}

/// Whether `s` begins with the end of a placeholder.
pub open spec fn begins_with_end_of(s: Seq<char>, placeholder: Seq<char>) -> bool {
    exists|b: int| 0 < b < placeholder.len() && text::begins_with(s, #[trigger] placeholder.skip(b))
}

/// Whether `s` could complete a placeholder that an argument leaves unfinished.
pub open spec fn completes_a_placeholder(s: Seq<char>) -> bool {
    begins_with_end_of(s, "{INPUT}"@) || begins_with_end_of(s, "{OUTPUT}"@) || begins_with_end_of(
        s,
        "{BINARY}"@,
    )
}

/// What is common to the placeholders.
spec fn is_placeholder(p: Seq<char>) -> bool {
    &&& p.len() > 2
    &&& p[0] == '{'
    &&& forall|b: int| 0 < b < p.len() ==> #[trigger] p[b] != '{'
    &&& forall|b: int| 0 <= b < p.len() ==> #[trigger] p[b] != '/'
}

/// The placeholders begin with the only opening brace that they hold, and hold no slash; no
/// two of them begin alike.
proof fn lemma_placeholders()
    ensures
        is_placeholder("{INPUT}"@),
        is_placeholder("{OUTPUT}"@),
        is_placeholder("{BINARY}"@),
        "{INPUT}"@[1] != "{OUTPUT}"@[1],
        "{INPUT}"@[1] != "{BINARY}"@[1],
        "{OUTPUT}"@[1] != "{BINARY}"@[1],
{
    reveal_strlit("{INPUT}");
    reveal_strlit("{OUTPUT}");
    reveal_strlit("{BINARY}");
}

/// A placeholder opens a brace only for itself.
proof fn lemma_placeholder_is_tidy(p: Seq<char>)
    requires
        is_placeholder(p),
    ensures
        forall|q: Seq<char>| #[trigger] text::only_begins(p, '{', p, q),
        forall|q: Seq<char>| #[trigger] text::only_begins(p, '{', q, p),
{
    assert(p.subrange(0, p.len() as int) =~= p);
}

/// A path of a job, put in the place of a placeholder, leaves none of it and brings in no
/// other.
proof fn lemma_placeholder_goes(
    arg: Seq<char>,
    p: Seq<char>,
    path: Seq<char>,
    q: Seq<char>,
    slash: int,
)
    requires
        is_placeholder(p),
        is_placeholder(q),
        opens_nothing(path),
        0 <= slash < path.len(),
        path[slash] == '/',
        !begins_with_end_of(path.take(slash), q),
        p == q || !text::contains_text(arg, q),
    ensures
        !text::contains_text(text::replace_all(arg, p, path), q),
{
    assert forall|b: int| 0 < b < q.len() implies !text::begins_with(path, #[trigger] q.skip(b)) by {
        let end = q.skip(b);
        if text::begins_with(path, end) {
            if end.len() <= slash {
                assert(path.take(slash).subrange(0, end.len() as int) =~= path.subrange(
                    0,
                    end.len() as int,
                ));
                assert(text::begins_with(path.take(slash), end));
            } else {
                assert(path.subrange(0, end.len() as int)[slash] == '/');
                assert(end[slash] == q[b + slash]);
            }
        }
    }
    if text::contains_text(text::replace_all(arg, p, path), q) {
        text::lemma_replace_brings_in_nothing(arg, p, path, q, slash);
    }
}

/// An argument in which each opening brace begins one of two placeholders holds none once
/// both are resolved.
proof fn lemma_tidy_argument_resolves(
    arg: Seq<char>,
    p: Seq<char>,
    first: Seq<char>,
    q: Seq<char>,
    second: Seq<char>,
)
    requires
        is_placeholder(p),
        is_placeholder(q),
        p[1] != q[1],
        opens_nothing(first),
        opens_nothing(second),
        text::only_begins(arg, '{', p, q),
    ensures
        opens_nothing(text::replace_all(text::replace_all(arg, p, first), q, second)),
{
    let once = text::replace_all(arg, p, first);
    let out = text::replace_all(once, q, second);
    text::lemma_replace_leaves_the_other(arg, '{', p, q, first);
    text::lemma_replace_leaves_the_other(once, '{', q, q, second);
    assert(text::only_begins(once, '{', q, p));
    text::lemma_replace_leaves_the_other(once, '{', q, p, second);
    assert forall|i: int| 0 <= i < out.len() implies #[trigger] out[i] != '{' by {
        if out[i] == '{' {
            assert(text::occurs_at(out, p, i) && text::occurs_at(out, q, i));
            assert(out.subrange(i, i + p.len())[1] == out[i + 1]);
            assert(out.subrange(i, i + q.len())[1] == out[i + 1]);
        }
    }
}

/// Where there is no opening brace there is no placeholder.
proof fn lemma_nothing_opened(s: Seq<char>, q: Seq<char>)
    requires
        opens_nothing(s),
        is_placeholder(q),
    ensures
        !text::contains_text(s, q),
{
    if text::contains_text(s, q) {
        let i = choose|i: int| #[trigger] text::occurs_at(s, q, i);
        assert(s.subrange(i, i + q.len())[0] == s[i]);
    }
}

/// The paths of a job are its directory followed by a slash, and hold no opening brace where
/// the directory and the extension hold none.
proof fn lemma_job_paths(dir: Seq<char>, extension: Seq<char>)
    requires
        opens_nothing(dir),
        opens_nothing(extension),
    ensures
        opens_nothing(source_path(dir, extension)),
        opens_nothing(binary_path(dir)),
        dir.len() < source_path(dir, extension).len(),
        dir.len() < binary_path(dir).len(),
        source_path(dir, extension)[dir.len() as int] == '/',
        binary_path(dir)[dir.len() as int] == '/',
        source_path(dir, extension).take(dir.len() as int) == dir,
        binary_path(dir).take(dir.len() as int) == dir,
{
    reveal_strlit("/main.");
    reveal_strlit("/app");
    let s = source_path(dir, extension);
    let n = dir.len() as int;
    assert forall|i: int| 0 <= i < s.len() implies #[trigger] s[i] != '{' by {
        if i < n {
            assert(s[i] == dir[i]);
        } else if i < n + 6 {
            assert(s[i] == "/main."@[i - n]);
        } else {
            assert(s[i] == extension[i - n - 6]);
        }
    }
    let b = binary_path(dir);
    assert forall|i: int| 0 <= i < b.len() implies #[trigger] b[i] != '{' by {
        if i < n {
            assert(b[i] == dir[i]);
        } else {
            assert(b[i] == "/app"@[i - n]);
        }
    }
    assert(s.take(n) =~= dir);
    assert(b.take(n) =~= dir);
}

/// Resolved arguments hold no placeholder, in any directory whose path holds no opening
/// brace: for every runtime whose arguments open a brace only for a placeholder, and for
/// every other one where the directory does not complete what an argument leaves open.
pub proof fn law_no_placeholder_is_left(config: RuntimeConfig, dir: Seq<char>, i: int)
    requires
        opens_nothing(dir),
        opens_nothing(config.source_extension@),
        config.tidy() || !completes_a_placeholder(dir),
    ensures
        config.compile_argv(dir) matches Some(argv) ==> 0 <= i < argv.len()
            ==> !text::contains_text(argv[i], "{INPUT}"@) && !text::contains_text(
            argv[i],
            "{OUTPUT}"@,
        ),
        0 <= i < config.run_argv(dir).len() ==> !text::contains_text(
            config.run_argv(dir)[i],
            "{BINARY}"@,
        ) && !text::contains_text(config.run_argv(dir)[i], "{INPUT}"@),
{
    lemma_placeholders();
    lemma_job_paths(dir, config.source_extension@);
    let n = dir.len() as int;
    let source = source_path(dir, config.source_extension@);
    let binary = binary_path(dir);
    let program = config.program_path(dir);
    let (input, output, runs) = ("{INPUT}"@, "{OUTPUT}"@, "{BINARY}"@);
    if let Some(args) = config.compile_args {
        if 0 <= i < args@.len() {
            let arg = args@[i]@;
            let once = text::replace_all(arg, input, source);
            let twice = text::replace_all(once, output, binary);
            if config.tidy() {
                lemma_tidy_argument_resolves(arg, input, source, output, binary);
                lemma_nothing_opened(twice, input);
                lemma_nothing_opened(twice, output);
            } else {
                lemma_placeholder_goes(arg, input, source, input, n);
                lemma_placeholder_goes(once, output, binary, input, n);
                lemma_placeholder_goes(once, output, binary, output, n);
            }
        }
    }
    if 0 <= i < config.run_args@.len() {
        let arg = config.run_args@[i]@;
        let once = text::replace_all(arg, runs, program);
        let twice = text::replace_all(once, input, source);
        if config.tidy() {
            lemma_tidy_argument_resolves(arg, runs, program, input, source);
            lemma_nothing_opened(twice, input);
            lemma_nothing_opened(twice, runs);
        } else {
            lemma_placeholder_goes(arg, runs, program, runs, n);
            lemma_placeholder_goes(once, input, source, runs, n);
            lemma_placeholder_goes(once, input, source, input, n);
        }
    }
}

// ── Job directories ──────────────────────────────────────────────────────────

/// The job directory that belongs to a clock reading in nanoseconds.
pub open spec fn job_dir_at(nanos: nat) -> Seq<char> {
    "/tmp/miller_job_"@ + text::decimal(nanos)
}

/// The job directory that belongs to a clock reading in nanoseconds.
pub fn job_dir_for(nanos: u128) -> (r: String)
    ensures
        r@ == job_dir_at(nanos as nat),
{
    let mut out: String = "/tmp/miller_job_".to_owned();
    out.append(text::decimal_of(nanos).as_str());
    out
}

/// A job directory of its own for each clock reading.
pub fn get_unique_job_dir() -> (r: String)
    ensures
        exists|nanos: u128| r@ == #[trigger] job_dir_at(nanos as nat),
{
    let nanos: u128 = nanos_since_epoch();
    let out: String = job_dir_for(nanos);
    assert(out@ == job_dir_at(nanos as nat));
    out
}

/// Different clock readings give different job directories.
pub proof fn law_job_dirs_are_unique(a: nat, b: nat)
    requires
        a != b,
    ensures
        job_dir_at(a) != job_dir_at(b),
{
    if job_dir_at(a) == job_dir_at(b) {
        let n = "/tmp/miller_job_"@.len() as int;
        assert(job_dir_at(a).skip(n) =~= text::decimal(a));
        assert(job_dir_at(b).skip(n) =~= text::decimal(b));
        text::lemma_decimal_injective(a, b);
    }
}

/// What to do after an attempt to remove a job directory.
#[derive(Debug, Clone, Copy, PartialEq, Eq, Structural)]
pub enum CleanupStep {
    /// The directory is gone.
    Done,
    /// Wait this long, then try again.
    RetryAfter { millis: u64 },
    /// Wait this long, then give the directory up.
    GiveUpAfter { millis: u64 },
}

/// How often the removal of a job directory is tried.
pub const CLEANUP_ATTEMPTS: usize = 3;

/// How long to wait after a failed removal, in milliseconds.
pub const CLEANUP_PAUSE_MS: u64 = 100;

/// What to do after removal attempt `attempt`, counted from one.
pub open spec fn cleanup_step(attempt: nat, removed: bool) -> CleanupStep {
    if removed {
        CleanupStep::Done
    } else if attempt < CLEANUP_ATTEMPTS {
        CleanupStep::RetryAfter { millis: CLEANUP_PAUSE_MS }
    } else {
        CleanupStep::GiveUpAfter { millis: CLEANUP_PAUSE_MS }
    }
}

/// A removal of a job directory that is tried until it succeeds or the attempts are used up.
#[derive(Debug)]
pub struct Cleanup {
    attempt: usize,
}

impl Cleanup {
    /// The number of the attempt under way, counted from one.
    pub closed spec fn attempt(&self) -> nat {
        self.attempt as nat
    }

    /// The first attempt.
    pub fn new() -> (r: Self)
        ensures
            r.attempt() == 1,
    {
        Cleanup { attempt: 1 }
    }

    /// Takes in whether the attempt under way has removed the directory.
    pub fn after(&mut self, removed: bool) -> (r: CleanupStep)
        ensures
            r == cleanup_step(old(self).attempt(), removed),
            final(self).attempt() == if r is RetryAfter {
                old(self).attempt() + 1
            } else {
                old(self).attempt()
            },
    {
        if removed {
            CleanupStep::Done
        } else if self.attempt < CLEANUP_ATTEMPTS {
            self.attempt = self.attempt + 1;
            CleanupStep::RetryAfter { millis: CLEANUP_PAUSE_MS }
        } else {
            CleanupStep::GiveUpAfter { millis: CLEANUP_PAUSE_MS }
        }
    }
}

/// How a removal ends that is at attempt `attempt`, where attempt `i` has the outcome
/// `outcomes[i - 1]`: the number of the last attempt, and whether it has removed the
/// directory; none where the outcomes do not decide it.
pub open spec fn cleanup(outcomes: Seq<bool>, attempt: nat) -> Option<(nat, bool)>
    decreases outcomes.len() + 1 - attempt,
{
    if attempt < 1 || attempt > outcomes.len() {
        None
    } else {
        match cleanup_step(attempt, outcomes[attempt - 1]) {
            CleanupStep::Done => Some((attempt, true)),
            CleanupStep::RetryAfter { millis } => cleanup(outcomes, attempt + 1),
            CleanupStep::GiveUpAfter { millis } => Some((attempt, false)),
        }
    }
}

/// Attempts that have failed are passed over.
proof fn lemma_failures_are_passed_over(outcomes: Seq<bool>, attempt: nat, k: nat)
    requires
        1 <= attempt <= k <= CLEANUP_ATTEMPTS,
        k <= outcomes.len(),
        forall|i: int| attempt - 1 <= i < k - 1 ==> !#[trigger] outcomes[i],
    ensures
        cleanup(outcomes, attempt) == cleanup(outcomes, k),
    decreases k - attempt,
{
    if attempt < k {
        assert(!outcomes[attempt - 1]);
        lemma_failures_are_passed_over(outcomes, attempt + 1, k);
    }
}

/// A removal stops at the first attempt that succeeds.
pub proof fn law_cleanup_stops_at_the_first_success(outcomes: Seq<bool>, k: int)
    requires
        0 <= k < CLEANUP_ATTEMPTS,
        k < outcomes.len(),
        outcomes[k],
        forall|i: int| 0 <= i < k ==> !#[trigger] outcomes[i],
    ensures
        cleanup(outcomes, 1) == Some(((k + 1) as nat, true)),
{
    lemma_failures_are_passed_over(outcomes, 1, (k + 1) as nat);
}

/// A removal is tried no more often than is allowed, and is given up exactly when as many
/// attempts as are allowed have failed.
pub proof fn law_cleanup_gives_up_at_the_limit(outcomes: Seq<bool>)
    requires
        outcomes.len() >= CLEANUP_ATTEMPTS,
    ensures
        cleanup(outcomes, 1) matches Some((attempts, removed)) && attempts <= CLEANUP_ATTEMPTS && (
        !removed <==> forall|i: int| 0 <= i < CLEANUP_ATTEMPTS ==> !#[trigger] outcomes[i]),
{
    if outcomes[0] {
        law_cleanup_stops_at_the_first_success(outcomes, 0);
    } else if outcomes[1] {
        law_cleanup_stops_at_the_first_success(outcomes, 1);
    } else if outcomes[2] {
        law_cleanup_stops_at_the_first_success(outcomes, 2);
    } else {
        lemma_failures_are_passed_over(outcomes, 1, CLEANUP_ATTEMPTS as nat);
    }
}

// ── Containers ───────────────────────────────────────────────────────────────

/// Where the job directory is mounted inside a container.
pub const WORKSPACE: &'static str = "/workspace";

/// The mount that puts `dir` at the workspace of a container.
pub open spec fn mount(dir: Seq<char>) -> Seq<char> {
    dir + ":/workspace:rw"@
}

/// The container arguments of the compile phase, up to the image.
pub open spec fn compile_jail(dir: Seq<char>, image: Seq<char>) -> Seq<Seq<char>> {
    seq![
        "run"@,
        "--rm"@,
        "--network"@,
        "none"@,
        "--memory"@,
        "512m"@,
        "--cpus"@,
        "0.5"@,
        "--pids-limit"@,
        "100"@,
        "--cap-drop"@,
        "ALL"@,
        "--security-opt"@,
        "no-new-privileges"@,
        "-v"@,
        mount(dir),
        image,
    ]
}

/// The container arguments of the run phase, up to the image.
pub open spec fn run_jail(dir: Seq<char>, image: Seq<char>) -> Seq<Seq<char>> {
    seq![
        "run"@,
        "--rm"@,
        "--init"@,
        "--network"@,
        "none"@,
        "--memory"@,
        "256m"@,
        "--cpus"@,
        "0.5"@,
        "--pids-limit"@,
        "64"@,
        "--cap-drop"@,
        "ALL"@,
        "--security-opt"@,
        "no-new-privileges"@,
        "--read-only"@,
        "--tmpfs"@,
        "/tmp:rw,noexec,nosuid,size=64m"@,
        "-v"@,
        mount(dir),
        image,
    ]
}

/// Whether the option `name` with the value `value` stands before the last of `args`,
/// which is the image.
pub open spec fn has_option(args: Seq<Seq<char>>, name: Seq<char>, value: Seq<char>) -> bool {
    exists|i: int| 0 <= i && i + 2 < args.len() && #[trigger] args[i] == name && args[i + 1] == value
}

/// Every container runs without a network, without capabilities and without a way to
/// new privileges, and sees the job directory alone.
pub proof fn law_containers_are_confined(dir: Seq<char>, image: Seq<char>)
    ensures
        has_option(compile_jail(dir, image), "--network"@, "none"@),
        has_option(compile_jail(dir, image), "--cap-drop"@, "ALL"@),
        has_option(compile_jail(dir, image), "--security-opt"@, "no-new-privileges"@),
        has_option(compile_jail(dir, image), "-v"@, mount(dir)),
        has_option(run_jail(dir, image), "--network"@, "none"@),
        has_option(run_jail(dir, image), "--cap-drop"@, "ALL"@),
        has_option(run_jail(dir, image), "--security-opt"@, "no-new-privileges"@),
        has_option(run_jail(dir, image), "-v"@, mount(dir)),
{
    let c = compile_jail(dir, image);
    assert(c[2] == "--network"@);
    assert(c[10] == "--cap-drop"@);
    assert(c[12] == "--security-opt"@);
    assert(c[14] == "-v"@);
    let r = run_jail(dir, image);
    assert(r[3] == "--network"@);
    assert(r[11] == "--cap-drop"@);
    assert(r[13] == "--security-opt"@);
    assert(r[18] == "-v"@);
}

/// The mount that puts `dir` at the workspace of a container.
fn mount_of(dir: &str) -> (r: String)
    ensures
        r@ == mount(dir@),
{
    let mut out: String = dir.to_owned();
    out.append(":/workspace:rw");
    out
}

/// The arguments of a container that compiles in `dir`: `argv` in the image `image`.
pub fn compile_container_args(dir: &str, image: &str, argv: Vec<String>) -> (r: Vec<String>)
    ensures
        text::texts(r@) == compile_jail(dir@, image@) + text::texts(argv@),
{
    let options: Vec<&'static str> =
        vec![
        "run",
        "--rm",
        "--network",
        "none",
        "--memory",
        "512m",
        "--cpus",
        "0.5",
        "--pids-limit",
        "100",
        "--cap-drop",
        "ALL",
        "--security-opt",
        "no-new-privileges",
        "-v",
    ];
    let mut out: Vec<String> = text::owned(&options);
    let ghost fixed = text::texts(out@);
    assert(fixed.len() == 15);
    assert(fixed =~= compile_jail(dir@, image@).take(15));
    out.push(mount_of(dir));
    out.push(image.to_owned());
    assert(text::texts(out@) =~= fixed.push(mount(dir@)).push(image@));
    assert(text::texts(out@) =~= compile_jail(dir@, image@));
    let mut rest: Vec<String> = argv;
    out.append(&mut rest);
    assert(text::texts(out@) =~= compile_jail(dir@, image@) + text::texts(argv@));
    out
}

/// The arguments of a container that runs in `dir`: `argv` in the image `image`.
pub fn run_container_args(dir: &str, image: &str, argv: Vec<String>) -> (r: Vec<String>)
    ensures
        text::texts(r@) == run_jail(dir@, image@) + text::texts(argv@),
{
    let options: Vec<&'static str> =
        vec![
        "run",
        "--rm",
        "--init",
        "--network",
        "none",
        "--memory",
        "256m",
        "--cpus",
        "0.5",
        "--pids-limit",
        "64",
        "--cap-drop",
        "ALL",
        "--security-opt",
        "no-new-privileges",
        "--read-only",
        "--tmpfs",
        "/tmp:rw,noexec,nosuid,size=64m",
        "-v",
    ];
    let mut out: Vec<String> = text::owned(&options);
    let ghost fixed = text::texts(out@);
    assert(fixed.len() == 19);
    assert(fixed =~= run_jail(dir@, image@).take(19));
    out.push(mount_of(dir));
    out.push(image.to_owned());
    assert(text::texts(out@) =~= fixed.push(mount(dir@)).push(image@));
    assert(text::texts(out@) =~= run_jail(dir@, image@));
    let mut rest: Vec<String> = argv;
    out.append(&mut rest);
    assert(text::texts(out@) =~= run_jail(dir@, image@) + text::texts(argv@));
    out
}

// ── Compile phase ────────────────────────────────────────────────────────────

/// What the compile phase of a job has to do.
#[derive(Debug)]
pub enum CompilePlan {
    /// Nothing: the source file is missing, and this is the report of the failure.
    MissingSource { report: String },
    /// Copy the source file; an interpreted language then has compiled successfully,
    /// with nothing to report.
    CopyOnly { destination: String },
    /// Copy the source file, then run a container with these arguments.
    CopyAndCompile { destination: String, container_args: Vec<String> },
}

/// The plan of the compile phase of a job in `job_dir`, given whether the source file
/// exists on the host.
pub fn plan_compile(
    job_dir: &str,
    config: &RuntimeConfig,
    source_file_on_host: &str,
    source_exists: bool,
) -> (r: CompilePlan)
    ensures
        match r {
            CompilePlan::MissingSource { report } => {
                &&& !source_exists
                &&& report@ == source_file_on_host@ + " missing on host cache"@
            },
            CompilePlan::CopyOnly { destination } => {
                &&& source_exists
                &&& config.interpreted()
                &&& destination@ == source_path(job_dir@, config.source_extension@)
            },
            CompilePlan::CopyAndCompile { destination, container_args } => {
                &&& source_exists
                &&& !config.interpreted()
                &&& destination@ == source_path(job_dir@, config.source_extension@)
                &&& text::texts(container_args@) == compile_jail(job_dir@, config.image_name@)
                    + config.compile_argv(WORKSPACE@)->0
            },
        },
{
    if !source_exists {
        let mut report: String = source_file_on_host.to_owned();
        report.append(" missing on host cache");
        return CompilePlan::MissingSource { report };
    }
    let destination: String = source_path_of(job_dir, config.source_extension);
    if config.is_interpreted() {
        return CompilePlan::CopyOnly { destination };
    }
    match config.resolved_compile_args(WORKSPACE) {
        Some(argv) => CompilePlan::CopyAndCompile {
            destination,
            container_args: compile_container_args(job_dir, config.image_name, argv),
        },
        None => CompilePlan::CopyOnly { destination },
    }
}

/// The arguments of the container that runs the program of a job in `job_dir`.
pub fn plan_run(job_dir: &str, config: &RuntimeConfig) -> (r: Vec<String>)
    ensures
        text::texts(r@) == run_jail(job_dir@, config.image_name@) + config.run_argv(WORKSPACE@),
{
    run_container_args(job_dir, config.image_name, config.resolved_run_args(WORKSPACE))
}

// ── Error extraction ─────────────────────────────────────────────────────────

/// How many lines are kept of a compiler's error output.
pub const MAX_ERROR_LINES: usize = 25;

/// Whether a line of a compiler's error output helps to mend the error.
pub open spec fn actionable(line: Seq<char>) -> bool {
    ||| text::contains_text(line, "error"@)
    ||| text::contains_text(line, "-->"@)
    ||| text::contains_text(line, "|"@)
    ||| text::contains_text(line, "help:"@)
}

/// The first lines of a compiler's error output that help to mend the error.
pub open spec fn actionable_lines(lines: Seq<Seq<char>>) -> Seq<Seq<char>> {
    let all = lines.filter(|line: Seq<char>| actionable(line));
    if all.len() <= MAX_ERROR_LINES {
        all
    } else {
        all.take(MAX_ERROR_LINES as int)
    }
}

/// What is kept of a compiler's error output.
pub open spec fn clean_error(raw_stderr: Seq<char>) -> Seq<char> {
    text::joined(actionable_lines(text::lines_of(raw_stderr)), "\n"@)
}

/// Whether a line of a compiler's error output helps to mend the error.
fn is_actionable(line: &str) -> (r: bool)
    ensures
        r == actionable(line@),
{
    text::contains(line, "error") || text::contains(line, "-->") || text::contains(line, "|")
        || text::contains(line, "help:")
}

/// Extracts the most actionable lines from a raw compiler error stream.
pub fn extract_clean_error(raw_stderr: &str) -> (r: String)
    ensures
        r@ == clean_error(raw_stderr@),
{
    let all: Vec<String> = text::lines(raw_stderr);
    let ghost lines = text::texts(all@);
    let ghost keep = |line: Seq<char>| actionable(line);
    let mut kept: Vec<String> = Vec::new();
    let mut i: usize = 0;
    proof {
        reveal(Seq::filter);
        assert(lines.take(0) =~= Seq::empty());
        assert(text::texts(kept@) =~= Seq::empty());
    }
    while i < all.len()
        invariant
            i <= all@.len(),
            lines == text::texts(all@),
            keep == (|line: Seq<char>| actionable(line)),
            kept@.len() <= MAX_ERROR_LINES,
            text::texts(kept@) == actionable_lines(lines.take(i as int)),
        decreases all@.len() - i,
    {
        let ghost before = lines.take(i as int);
        let ghost after = lines.take(i + 1);
        proof {
            reveal(Seq::filter);
            assert(after.drop_last() =~= before);
            assert(after.last() == all@[i as int]@);
        }
        if is_actionable(all[i].as_str()) && kept.len() < MAX_ERROR_LINES {
            let ghost done = text::texts(kept@);
            kept.push(all[i].clone());
            assert(text::texts(kept@) =~= done.push(all@[i as int]@));
        }
        assert(text::texts(kept@) =~= actionable_lines(after));
        i = i + 1;
    }
    assert(lines.take(i as int) =~= lines);
    text::join(&kept, "\n")
}

/// What a filter keeps is what was there and passes, in order; all of it where all pass.
proof fn lemma_filtered(lines: Seq<Seq<char>>)
    ensures
        ({
            let kept = lines.filter(|line: Seq<char>| actionable(line));
            &&& kept.len() <= lines.len()
            &&& forall|i: int|
                0 <= i < kept.len() ==> actionable(#[trigger] kept[i]) && lines.contains(kept[i])
            &&& (forall|i: int| 0 <= i < lines.len() ==> actionable(#[trigger] lines[i])) ==> kept
                == lines
        }),
    decreases lines.len(),
{
    reveal(Seq::filter);
    let keep = |line: Seq<char>| actionable(line);
    if lines.len() > 0 {
        let rest = lines.drop_last();
        lemma_filtered(rest);
        let before = rest.filter(keep);
        let kept = lines.filter(keep);
        assert forall|i: int| 0 <= i < kept.len() implies actionable(#[trigger] kept[i])
            && lines.contains(kept[i]) by {
            if i < before.len() {
                assert(kept[i] == before[i]);
                let k = choose|k: int| 0 <= k < rest.len() && rest[k] == before[i];
                assert(lines[k] == kept[i]);
            } else {
                assert(lines[lines.len() - 1] == kept[i]);
            }
        }
        if forall|i: int| 0 <= i < lines.len() ==> actionable(#[trigger] lines[i]) {
            assert forall|i: int| 0 <= i < rest.len() implies actionable(#[trigger] rest[i]) by {
                assert(rest[i] == lines[i]);
            }
            assert(actionable(lines[lines.len() - 1]));
            assert(kept =~= lines);
        }
    } else {
        assert(lines.filter(keep) =~= lines);
    }
}

/// Of an error output no more than so many lines are kept; each of them is a line of it
/// and actionable; and where no more are actionable, all that are.
pub proof fn law_clean_error_keeps_actionable_lines(raw_stderr: Seq<char>)
    ensures
        ({
            let lines = text::lines_of(raw_stderr);
            let all = lines.filter(|line: Seq<char>| actionable(line));
            let kept = actionable_lines(lines);
            &&& kept.len() <= MAX_ERROR_LINES
            &&& forall|i: int|
                0 <= i < kept.len() ==> actionable(#[trigger] kept[i]) && lines.contains(kept[i])
            &&& all.len() <= MAX_ERROR_LINES ==> kept == all
        }),
{
    let lines = text::lines_of(raw_stderr);
    let all = lines.filter(|line: Seq<char>| actionable(line));
    let kept = actionable_lines(lines);
    lemma_filtered(lines);
    assert forall|i: int| 0 <= i < kept.len() implies actionable(#[trigger] kept[i])
        && lines.contains(kept[i]) by {
        assert(kept[i] == all[i]);
    }
}

/// An actionable line is not empty.
proof fn lemma_actionable_is_not_empty(line: Seq<char>)
    requires
        actionable(line),
    ensures
        line.len() > 0,
{
    reveal_strlit("error");
    reveal_strlit("-->");
    reveal_strlit("|");
    reveal_strlit("help:");
    if text::contains_text(line, "error"@) {
        let i = choose|i: int| #[trigger] text::occurs_at(line, "error"@, i);
    } else if text::contains_text(line, "-->"@) {
        let i = choose|i: int| #[trigger] text::occurs_at(line, "-->"@, i);
    } else if text::contains_text(line, "|"@) {
        let i = choose|i: int| #[trigger] text::occurs_at(line, "|"@, i);
    } else {
        let i = choose|i: int| #[trigger] text::occurs_at(line, "help:"@, i);
    }
}

/// The lines of what is kept are the lines that are kept, and what is kept of that is all
/// of it, where no line of the error output ends with a carriage return.
pub proof fn law_clean_error_is_stable(raw_stderr: Seq<char>)
    requires
        forall|i: int|
            0 <= i < text::lines_of(raw_stderr).len() ==> (#[trigger] text::lines_of(
                raw_stderr,
            )[i]).len() == 0 || text::lines_of(raw_stderr)[i].last() != '\r',
    ensures
        text::lines_of(clean_error(raw_stderr)) == actionable_lines(text::lines_of(raw_stderr)),
        clean_error(clean_error(raw_stderr)) == clean_error(raw_stderr),
{
    let lines = text::lines_of(raw_stderr);
    let kept = actionable_lines(lines);
    law_clean_error_keeps_actionable_lines(raw_stderr);
    text::lemma_lines_hold_no_feed(raw_stderr);
    assert forall|i: int| 0 <= i < kept.len() implies (#[trigger] kept[i]).len() > 0
        && kept[i].last() != '\r' by {
        lemma_actionable_is_not_empty(kept[i]);
        let k = choose|k: int| 0 <= k < lines.len() && lines[k] == kept[i];
        assert(lines[k].last() != '\r');
    }
    assert forall|i: int, k: int| 0 <= i < kept.len() && 0 <= k < kept[i].len() implies #[trigger] kept[i][k]
        != '\n' by {
        let j = choose|j: int| 0 <= j < lines.len() && lines[j] == kept[i];
        assert(lines[j][k] != '\n');
    }
    text::lemma_lines_of_joined(kept);
    lemma_filtered(kept);
}

/// Whether one of the marks of a compiler's error output stands in a line, anywhere in it.
pub open spec fn is_marked(line: Seq<char>) -> bool {
    ||| exists|a: Seq<char>, b: Seq<char>| line == #[trigger] (a + "error"@ + b)
    ||| exists|a: Seq<char>, b: Seq<char>| line == #[trigger] (a + "-->"@ + b)
    ||| exists|a: Seq<char>, b: Seq<char>| line == #[trigger] (a + "|"@ + b)
    ||| exists|a: Seq<char>, b: Seq<char>| line == #[trigger] (a + "help:"@ + b)
}

/// A line is kept of an error output for the marks that stand in it, at whatever position:
/// a further line is kept exactly if it is marked and fewer than twenty-five were kept before
/// it, and changes nothing about those.
pub proof fn law_marked_lines_are_kept(lines: Seq<Seq<char>>, line: Seq<char>)
    ensures
        actionable_lines(Seq::empty()) == Seq::<Seq<char>>::empty(),
        is_marked(line) && actionable_lines(lines).len() < 25 ==> actionable_lines(lines.push(line))
            == actionable_lines(lines).push(line),
        !is_marked(line) || actionable_lines(lines).len() >= 25 ==> actionable_lines(
            lines.push(line),
        ) == actionable_lines(lines),
        actionable_lines(lines).len() <= 25,
{
    reveal(Seq::filter);
    text::law_occurrence_splits_the_text(line, "error"@);
    text::law_occurrence_splits_the_text(line, "-->"@);
    text::law_occurrence_splits_the_text(line, "|"@);
    text::law_occurrence_splits_the_text(line, "help:"@);
    let keep = |line: Seq<char>| actionable(line);
    let all = lines.filter(keep);
    let more = lines.push(line);
    assert(more.drop_last() =~= lines);
    assert(more.last() == line);
    assert(more.filter(keep) == if keep(line) {
        all.push(line)
    } else {
        all
    });
    assert(actionable_lines(Seq::empty()) =~= Seq::<Seq<char>>::empty());
    if all.len() >= 25 {
        assert(all.push(line).take(25) =~= all.take(25));
        assert(all.take(25).len() == 25);
        assert(all.len() == 25 ==> all.take(25) =~= all);
    }
}

/// A line with a mark in it, between whatever texts, is kept where all marked lines are.
pub proof fn law_mark_counts_anywhere_in_a_line(a: Seq<char>, mark: Seq<char>, b: Seq<char>)
    requires
        mark == "error"@ || mark == "-->"@ || mark == "|"@ || mark == "help:"@,
    ensures
        actionable_lines(seq![a + mark + b]) == seq![a + mark + b],
{
    let line = a + mark + b;
    assert(is_marked(line));
    law_marked_lines_are_kept(Seq::empty(), line);
    assert(Seq::<Seq<char>>::empty().push(line) =~= seq![line]);
}

/// What is kept of an error output are the kept ones of its lines, put together again.
pub proof fn law_clean_error_is_made_of_lines(raw_stderr: Seq<char>)
    ensures
        clean_error(raw_stderr) == text::joined(
            actionable_lines(text::lines_of(raw_stderr)),
            seq!['\n'],
        ),
{
    reveal_strlit("\n");
    assert("\n"@ =~= seq!['\n']);
}

/// A placeholder between texts that open no brace is resolved where it stands, and the texts
/// stay; an argument that opens no brace stays as it is.
pub proof fn law_placeholder_is_resolved_in_its_place(
    before: Seq<char>,
    after: Seq<char>,
    source: Seq<char>,
    binary: Seq<char>,
)
    requires
        opens_nothing(before),
        opens_nothing(after),
        opens_nothing(source),
        opens_nothing(binary),
    ensures
        resolved_compile_arg(before + "{INPUT}"@ + after, source, binary) == before + source
            + after,
        resolved_compile_arg(before + "{OUTPUT}"@ + after, source, binary) == before + binary
            + after,
        resolved_compile_arg(before, source, binary) == before,
        resolved_run_arg(before + "{BINARY}"@ + after, binary, source) == before + binary + after,
        resolved_run_arg(before + "{INPUT}"@ + after, binary, source) == before + source + after,
        resolved_run_arg(before, binary, source) == before,
{
    lemma_placeholders();
    let (input, output, runs) = ("{INPUT}"@, "{OUTPUT}"@, "{BINARY}"@);
    lemma_one_is_resolved(before, input, after, source);
    lemma_one_is_resolved(before, output, after, binary);
    lemma_one_is_resolved(before, runs, after, binary);
    lemma_other_stays(before, output, after, input, source);
    lemma_other_stays(before, input, after, runs, binary);
    lemma_joined_opens_nothing(before, source, after);
    lemma_joined_opens_nothing(before, binary, after);
    lemma_stays(before + source + after, output, binary);
    lemma_stays(before + binary + after, input, source);
    lemma_stays(before, input, source);
    lemma_stays(before, output, binary);
    lemma_stays(before, runs, binary);
}

/// Three texts that open no brace open none together.
proof fn lemma_joined_opens_nothing(a: Seq<char>, b: Seq<char>, c: Seq<char>)
    requires
        opens_nothing(a),
        opens_nothing(b),
        opens_nothing(c),
    ensures
        opens_nothing(a + b + c),
{
    let s = a + b + c;
    let n = a.len() as int;
    let m = (a.len() + b.len()) as int;
    assert forall|i: int| 0 <= i < s.len() implies #[trigger] s[i] != '{' by {
        if i < n {
            assert(s[i] == a[i]);
        } else if i < m {
            assert(s[i] == b[i - n]);
        } else {
            assert(s[i] == c[i - m]);
        }
    }
}

/// A text that opens no brace has nothing to resolve.
proof fn lemma_stays(s: Seq<char>, p: Seq<char>, r: Seq<char>)
    requires
        opens_nothing(s),
        is_placeholder(p),
    ensures
        text::replace_all(s, p, r) == s,
{
    lemma_nothing_opened(s, p);
    text::lemma_replace_nothing(s, p, r);
}

/// The only placeholder of an argument is resolved.
proof fn lemma_one_is_resolved(before: Seq<char>, p: Seq<char>, after: Seq<char>, r: Seq<char>)
    requires
        opens_nothing(before),
        opens_nothing(after),
        is_placeholder(p),
    ensures
        text::replace_all(before + p + after, p, r) == before + r + after,
{
    let s = before + p + after;
    assert forall|a: Seq<char>, b: Seq<char>| s == #[trigger] (a + p + b) implies before.len()
        <= a.len() by {
        if a.len() < before.len() {
            assert((a + p + b)[a.len() as int] == p[0]);
            assert(s[a.len() as int] == before[a.len() as int]);
        }
    }
    text::law_replacing_goes_from_the_left(before, p, after, r);
    lemma_stays(after, p, r);
}

/// Another placeholder stays while one is resolved.
proof fn lemma_other_stays(
    before: Seq<char>,
    p: Seq<char>,
    after: Seq<char>,
    q: Seq<char>,
    r: Seq<char>,
)
    requires
        opens_nothing(before),
        opens_nothing(after),
        is_placeholder(p),
        is_placeholder(q),
        p[1] != q[1],
    ensures
        text::replace_all(before + p + after, q, r) == before + p + after,
{
    let s = before + p + after;
    let n = before.len() as int;
    if text::contains_text(s, q) {
        let i = choose|i: int| #[trigger] text::occurs_at(s, q, i);
        assert(s.subrange(i, i + q.len())[0] == s[i]);
        assert(s.subrange(i, i + q.len())[1] == s[i + 1]);
        if i < n {
            assert(s[i] == before[i]);
        } else if i < n + p.len() {
            assert(s[i] == p[i - n]);
            assert(i == n);
            assert(s[i + 1] == p[1]);
        } else {
            assert(s[i] == after[i - n - p.len()]);
        }
    }
    text::lemma_replace_nothing(s, q, r);
}

/// Every argument of a runtime is resolved, in order, with the paths of the job: the source
/// file and the binary in its directory, where the source file is also what an interpreted
/// language runs.
pub proof fn law_every_argument_is_resolved(config: RuntimeConfig, dir: Seq<char>, i: int)
    ensures
        ({
            let source = dir + "/main."@ + config.source_extension@;
            let binary = dir + "/app"@;
            let program = if config.compile_args is None || config.compile_args->0@.len() == 0 {
                source
            } else {
                binary
            };
            &&& config.compile_argv(dir) is Some <==> config.compile_args is Some
            &&& config.compile_args matches Some(args) ==> config.compile_argv(dir)->0.len()
                == args@.len()
            &&& config.compile_args matches Some(args) ==> 0 <= i < args@.len()
                ==> config.compile_argv(dir)->0[i] == resolved_compile_arg(args@[i]@, source, binary)
            &&& config.run_argv(dir).len() == config.run_args@.len()
            &&& 0 <= i < config.run_args@.len() ==> config.run_argv(dir)[i] == resolved_run_arg(
                config.run_args@[i]@,
                program,
                source,
            )
        }),
{
}

/// Every container is limited and removed as it is confined; the run phase has a file system
/// that cannot be written but for a temporary directory; and the image comes last.
pub proof fn law_containers_are_limited(dir: Seq<char>, image: Seq<char>)
    ensures
        ({
            let c = compile_jail(dir, image);
            &&& c.len() == 17
            &&& c[0] == "run"@
            &&& c[1] == "--rm"@
            &&& has_option(c, "--memory"@, "512m"@)
            &&& has_option(c, "--cpus"@, "0.5"@)
            &&& has_option(c, "--pids-limit"@, "100"@)
            &&& c.last() == image
        }),
        ({
            let r = run_jail(dir, image);
            &&& r.len() == 21
            &&& r[0] == "run"@
            &&& r[1] == "--rm"@
            &&& r.contains("--init"@)
            &&& r.contains("--read-only"@)
            &&& has_option(r, "--memory"@, "256m"@)
            &&& has_option(r, "--cpus"@, "0.5"@)
            &&& has_option(r, "--pids-limit"@, "64"@)
            &&& has_option(r, "--tmpfs"@, "/tmp:rw,noexec,nosuid,size=64m"@)
            &&& r.last() == image
        }),
        mount(dir) == dir + ":/workspace:rw"@,
{
    let c = compile_jail(dir, image);
    assert(c[4] == "--memory"@);
    assert(c[6] == "--cpus"@);
    assert(c[8] == "--pids-limit"@);
    let r = run_jail(dir, image);
    assert(r[2] == "--init"@);
    assert(r[5] == "--memory"@);
    assert(r[7] == "--cpus"@);
    assert(r[9] == "--pids-limit"@);
    assert(r[15] == "--read-only"@);
    assert(r[16] == "--tmpfs"@);
}

/// A job directory is named by the nanoseconds of its clock reading, in decimal.
pub proof fn law_job_dir_is_named_by_the_clock(nanos: nat)
    ensures
        exists|digits: Seq<char>|
            job_dir_at(nanos) == #[trigger] ("/tmp/miller_job_"@ + digits) && text::number_of(digits)
                == nanos,
{
    text::law_decimal_writes_the_number(nanos);
    assert(job_dir_at(nanos) == "/tmp/miller_job_"@ + text::decimal(nanos));
}

/// A removal that succeeds is done with; one that fails is followed by a pause, and then by
/// another attempt unless it was the third.
pub proof fn law_removal_is_tried_thrice(attempt: nat)
    ensures
        cleanup_step(attempt, true) == CleanupStep::Done,
        attempt < 3 ==> cleanup_step(attempt, false) == (CleanupStep::RetryAfter { millis: 100 }),
        attempt >= 3 ==> cleanup_step(attempt, false) == (CleanupStep::GiveUpAfter {
            millis: 100,
        }),
{
}

} // verus!
