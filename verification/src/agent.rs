//! The agent: it has a model write code, refuses what is not safe, has the rest written,
//! checked and run, and asks for repairs until the code works or the attempts are used up.
//!
//! The agent decides; what it decides on is done elsewhere, and what comes of that is
//! handed back to it as an event.

use vstd::prelude::*;

use crate::compiler::{clean_error, extract_clean_error, Language};
use crate::orchestrator::{
    build_fence_reminder, build_repair_prompt, construct_initial_prompt, fence_reminder,
    initial_prompt, law_repair_prompt_tells_all, repair_prompt,
};
use crate::sandbox::SandboxExecutionResult;
use crate::security::{is_safe, law_sanitized_code_is_clean, safe, sanitize_code, sanitized};
use crate::session::{AgentState, Checkpoint, SessionState};
use crate::text;
use crate::workspace::{
    climbs, extract_target_file_hint, first_hint, law_first_hint_is_taken,
    law_line_without_the_comment_is_no_hint, law_named_file_is_the_hint,
    law_target_stays_in_workspace, line_hint, map_target, mapped_target, relative_path, target_of,
    Target,
};

verus! {

/// How many attempts a task has.
pub const MAX_ATTEMPTS: usize = 5;

// ── Prompts ──────────────────────────────────────────────────────────────────

/// The prompt with which a task starts: the one that is there, or else the first prompt
/// of the task.
pub fn starting_prompt(
    prompt: String,
    context_code: &str,
    task: &str,
    language: &Language,
) -> (r: String)
    ensures
        r@ == if prompt@.len() == 0 {
            initial_prompt(context_code@, task@, *language)
        } else {
            prompt@
        },
{
    if prompt.as_str().is_empty() {
        construct_initial_prompt(context_code, task, language)
    } else {
        prompt
    }
}

// ── Events and commands ──────────────────────────────────────────────────────

/// What came of a command.
pub enum Event {
    /// An attempt may begin.
    Ready,
    /// The model answered.
    Replied { answer: String },
    /// The model could not be reached.
    ReplyFailed { error: String },
    /// The code was written to this path.
    Written { path: String },
    /// The code could not be written.
    WriteFailed { error: String },
    /// The code was checked, with this error output.
    Checked { success: bool, stderr: String },
    /// The code could not be checked.
    CheckFailed { error: String },
    /// The code was run.
    Executed { result: SandboxExecutionResult },
    /// The code could not be run.
    ExecutionFailed { error: String },
    /// The binary to be run could not be made.
    RecompileFailed,
}

/// How a task ends.
#[derive(Debug, Clone, Copy, PartialEq, Eq, Structural)]
pub enum Ending {
    /// The code ran without an error.
    Completed,
    /// The attempts are used up.
    Exhausted,
    /// The model could not be reached.
    Unreachable,
    /// The code was refused.
    Refused,
    /// The code could not be written.
    NotWritten,
    /// The code could not be checked.
    NotChecked,
    /// The code could not be run.
    NotRun,
    /// The binary to be run could not be made.
    NotRecompiled,
}

/// What to do next.
#[derive(Debug)]
pub enum Command {
    /// Begin another attempt.
    Attempt,
    /// Have the model answer this prompt.
    Generate { prompt: String },
    /// Write this code.
    Write { code: String, target: Target },
    /// Check the project at `root`.
    CheckWorkspace { root: String },
    /// Compile the source file at `source` on its own.
    CompileScratchpad { source: String },
    /// Run the project at `root`.
    RunWorkspace { root: String },
    /// Compile and run the source file at `source` on its own.
    RunScratchpad { source: String },
    /// End the task.
    Stop(Ending),
    /// Nothing: the event was not awaited.
    Ignore,
}

/// What an event leads to: checkpoints to be saved, one after the other, whether the
/// checkpoint is then wiped, and what to do next.
#[derive(Debug)]
pub struct Turn {
    pub saves: Vec<SessionState>,
    pub wipes: bool,
    pub next: Command,
}

/// What a command says.
pub enum Order {
    Attempt,
    Generate { prompt: Seq<char> },
    Write { code: Seq<char>, target: Option<(Seq<char>, Seq<char>)> },
    CheckWorkspace { root: Seq<char> },
    CompileScratchpad { source: Seq<char> },
    RunWorkspace { root: Seq<char> },
    RunScratchpad { source: Seq<char> },
    Stop(Ending),
    Ignore,
}

impl View for Command {
    type V = Order;

    open spec fn view(&self) -> Order {
        match self {
            Command::Attempt => Order::Attempt,
            Command::Generate { prompt } => Order::Generate { prompt: prompt@ },
            Command::Write { code, target } => Order::Write {
                code: code@,
                target: target_of(*target),
            },
            Command::CheckWorkspace { root } => Order::CheckWorkspace { root: root@ },
            Command::CompileScratchpad { source } => Order::CompileScratchpad { source: source@ },
            Command::RunWorkspace { root } => Order::RunWorkspace { root: root@ },
            Command::RunScratchpad { source } => Order::RunScratchpad { source: source@ },
            Command::Stop(ending) => Order::Stop(*ending),
            Command::Ignore => Order::Ignore,
        }
    }
}

/// What a turn says.
pub struct Move {
    pub saves: Seq<Checkpoint>,
    pub wipes: bool,
    pub next: Order,
}

impl View for Turn {
    type V = Move;

    open spec fn view(&self) -> Move {
        Move {
            saves: Seq::new(self.saves@.len(), |i: int| self.saves@[i]@),
            wipes: self.wipes,
            next: self.next@,
        }
    }
}

// ── State ────────────────────────────────────────────────────────────────────

/// What the agent waits for.
#[derive(Debug, Clone, Copy, PartialEq, Eq, Structural)]
pub enum Stage {
    /// The beginning of an attempt.
    Ready,
    /// The answer of the model.
    Generating,
    /// That the code is written.
    Writing,
    /// That the code is checked.
    Checking,
    /// That the code is run.
    Executing,
    /// Nothing: the task has ended.
    Over,
}

/// The agent at work on a task.
#[derive(Debug)]
pub struct Agent {
    task: String,
    workspace_root: Option<String>,
    prompt: String,
    attempts: usize,
    resumed: bool,
    tried: bool,
    stage: Stage,
    session: SessionState,
    code: String,
    source: String,
}

/// The state of the agent.
pub struct Mind {
    /// The task.
    pub task: Seq<char>,
    /// The project, if there is one.
    pub workspace_root: Option<Seq<char>>,
    /// The prompt of the next attempt.
    pub prompt: Seq<char>,
    /// The number of the attempt, counted from one.
    pub attempts: nat,
    /// Whether the next attempt takes up an interrupted one, and so counts as that.
    pub resumed: bool,
    /// Whether an attempt has begun since the task was given or taken up.
    pub tried: bool,
    pub stage: Stage,
    /// The checkpoint of the attempt.
    pub session: Checkpoint,
    /// The code of the attempt.
    pub code: Seq<char>,
    /// Where the code was written.
    pub source: Seq<char>,
}

impl View for Agent {
    type V = Mind;

    closed spec fn view(&self) -> Mind {
        Mind {
            task: self.task@,
            workspace_root: text::optional_text(self.workspace_root),
            prompt: self.prompt@,
            attempts: self.attempts as nat,
            resumed: self.resumed,
            tried: self.tried,
            stage: self.stage,
            session: self.session@,
            code: self.code@,
            source: self.source@,
        }
    }
}

/// The agent before its first attempt, with the prompt of that attempt.
pub open spec fn fresh(
    task: Seq<char>,
    workspace_root: Option<Seq<char>>,
    prompt: Seq<char>,
    attempts: nat,
    resumed: bool,
) -> Mind {
    Mind {
        task,
        workspace_root,
        prompt,
        attempts,
        resumed,
        tried: false,
        stage: Stage::Ready,
        session: Checkpoint {
            task,
            attempt: attempts,
            current_state: AgentState::Generating,
            generated_code: prompt,
            last_error: Seq::empty(),
        },
        code: Seq::empty(),
        source: Seq::empty(),
    }
}

/// A checkpoint that tells of a failure.
pub open spec fn failed(c: Checkpoint, error: Seq<char>) -> Checkpoint {
    Checkpoint { current_state: AgentState::Failed, last_error: error, ..c }
}

/// The task ends with a failure that the checkpoint tells of.
pub open spec fn given_up(m: Mind, error: Seq<char>, ending: Ending) -> (Mind, Move) {
    let session = failed(m.session, error);
    (
        Mind { session, stage: Stage::Over, ..m },
        Move { saves: seq![session], wipes: false, next: Order::Stop(ending) },
    )
}

/// The code has failed with an error that the checkpoint tells of, and the model is asked
/// to mend it.
pub open spec fn sent_back(m: Mind, error: Seq<char>, error_type: Seq<char>) -> (Mind, Move) {
    let session = failed(m.session, error);
    (
        Mind {
            session,
            prompt: repair_prompt(m.task, m.code, error, error_type),
            stage: Stage::Ready,
            ..m
        },
        Move { saves: seq![session], wipes: false, next: Order::Attempt },
    )
}

/// The beginning of an attempt. Where no attempt is left after one that was made, the task
/// has failed for good, and its checkpoint is wiped; that of a task for which nothing was
/// tried stays.
pub open spec fn begun(m: Mind) -> (Mind, Move) {
    if m.attempts >= MAX_ATTEMPTS {
        (
            Mind { stage: Stage::Over, ..m },
            Move { saves: Seq::empty(), wipes: m.tried, next: Order::Stop(Ending::Exhausted) },
        )
    } else {
        let attempts = if m.resumed {
            m.attempts
        } else {
            m.attempts + 1
        };
        let session = Checkpoint {
            task: m.task,
            attempt: attempts,
            current_state: AgentState::Generating,
            generated_code: m.prompt,
            last_error: Seq::empty(),
        };
        (
            Mind {
                attempts,
                resumed: false,
                tried: true,
                session,
                stage: Stage::Generating,
                ..m
            },
            Move {
                saves: seq![session],
                wipes: false,
                next: Order::Generate { prompt: m.prompt },
            },
        )
    }
}

/// What follows an answer of the model: without code in it the model is asked again, unsafe
/// code is refused and ends the task, and other code is to be written.
pub open spec fn replied(m: Mind, answer: Seq<char>) -> (Mind, Move) {
    let sanitizing = Checkpoint { current_state: AgentState::Sanitizing, ..m.session };
    match sanitized(answer) {
        None => (
            Mind {
                session: sanitizing,
                prompt: fence_reminder(m.task),
                stage: Stage::Ready,
                ..m
            },
            Move { saves: seq![sanitizing], wipes: false, next: Order::Attempt },
        ),
        Some(code) => if !safe(code) {
            let refused = failed(sanitizing, "Security scan intercepted a rule infraction."@);
            (
                Mind { session: refused, stage: Stage::Over, ..m },
                Move {
                    saves: seq![sanitizing, refused],
                    wipes: false,
                    next: Order::Stop(Ending::Refused),
                },
            )
        } else {
            (
                Mind { session: sanitizing, code, stage: Stage::Writing, ..m },
                Move {
                    saves: seq![sanitizing],
                    wipes: false,
                    next: Order::Write {
                        code,
                        target: mapped_target(
                            m.workspace_root,
                            first_hint(text::lines_of(answer)),
                        ),
                    },
                },
            )
        },
    }
}

/// What follows the writing of the code: the project is checked, or else the file is
/// compiled on its own.
pub open spec fn written(m: Mind, path: Seq<char>) -> (Mind, Move) {
    let session = Checkpoint {
        current_state: AgentState::Compiling,
        generated_code: m.code,
        ..m.session
    };
    (
        Mind { session, source: path, stage: Stage::Checking, ..m },
        Move {
            saves: seq![session],
            wipes: false,
            next: match m.workspace_root {
                Some(root) => Order::CheckWorkspace { root },
                None => Order::CompileScratchpad { source: path },
            },
        },
    )
}

/// What follows a check: code that passes is run, other code goes back to the model with
/// what is worth knowing of the error output.
pub open spec fn checked(m: Mind, success: bool, stderr: Seq<char>) -> (Mind, Move) {
    if success {
        let session = Checkpoint { current_state: AgentState::Executing, ..m.session };
        (
            Mind { session, stage: Stage::Executing, ..m },
            Move {
                saves: seq![session],
                wipes: false,
                next: match m.workspace_root {
                    Some(root) => Order::RunWorkspace { root },
                    None => Order::RunScratchpad { source: m.source },
                },
            },
        )
    } else {
        sent_back(
            m,
            clean_error(stderr),
            if m.workspace_root is Some {
                "Cargo Check Error"@
            } else {
                "Compilation Error"@
            },
        )
    }
}

/// What follows a run: code that ran too long, wrote too much or wrote to its standard
/// error goes back to the model; other code completes the task.
pub open spec fn executed(
    m: Mind,
    timed_out: bool,
    limit_exceeded: bool,
    stderr: Seq<char>,
) -> (Mind, Move) {
    if timed_out {
        sent_back(m, stderr, "Runtime Timeout Error"@)
    } else if limit_exceeded {
        sent_back(m, stderr, "Host Pipe Bomb Exploitation Intercept"@)
    } else if stderr.len() > 0 {
        sent_back(m, stderr, "Runtime Crash Error"@)
    } else {
        (
            Mind { stage: Stage::Over, ..m },
            Move { saves: Seq::empty(), wipes: true, next: Order::Stop(Ending::Completed) },
        )
    }
}

/// What an event leads to. One that is not awaited changes nothing.
pub open spec fn advanced(m: Mind, e: Event) -> (Mind, Move) {
    match (m.stage, e) {
        (Stage::Ready, Event::Ready) => begun(m),
        (Stage::Generating, Event::Replied { answer }) => replied(m, answer@),
        (Stage::Generating, Event::ReplyFailed { error }) => given_up(
            m,
            error@,
            Ending::Unreachable,
        ),
        (Stage::Writing, Event::Written { path }) => written(m, path@),
        (Stage::Writing, Event::WriteFailed { error }) => given_up(m, error@, Ending::NotWritten),
        (Stage::Checking, Event::Checked { success, stderr }) => checked(m, success, stderr@),
        (Stage::Checking, Event::CheckFailed { error }) => given_up(m, error@, Ending::NotChecked),
        (Stage::Executing, Event::Executed { result }) => executed(
            m,
            result.timed_out,
            result.limit_exceeded,
            result.stderr@,
        ),
        (Stage::Executing, Event::ExecutionFailed { error }) => given_up(
            m,
            error@,
            Ending::NotRun,
        ),
        (Stage::Executing, Event::RecompileFailed) => (
            Mind { stage: Stage::Over, ..m },
            Move {
                saves: Seq::empty(),
                wipes: false,
                next: Order::Stop(Ending::NotRecompiled),
            },
        ),
        _ => (m, Move { saves: Seq::empty(), wipes: false, next: Order::Ignore }),
    }
}

// ── The agent ────────────────────────────────────────────────────────────────

/// The turn that saves one checkpoint.
fn one_save(session: &SessionState, next: Command) -> (r: Turn)
    ensures
        r@ == (Move { saves: seq![session@], wipes: false, next: next@ }),
{
    let mut saves: Vec<SessionState> = Vec::new();
    saves.push(session.clone());
    let turn = Turn { saves, wipes: false, next };
    assert(turn@.saves =~= seq![session@]);
    turn
}

/// The turn that saves nothing.
fn no_save(wipes: bool, next: Command) -> (r: Turn)
    ensures
        r@ == (Move { saves: Seq::<Checkpoint>::empty(), wipes, next: next@ }),
{
    let turn = Turn { saves: Vec::new(), wipes, next };
    assert(turn@.saves =~= Seq::<Checkpoint>::empty());
    turn
}

impl Agent {
    /// The agent at the beginning of a task, or of one that is taken up again after
    /// `attempts` attempts.
    pub fn new(
        task: String,
        workspace_root: Option<String>,
        prompt: String,
        attempts: usize,
        resumed: bool,
    ) -> (r: Self)
        ensures
            r@ == fresh(
                task@,
                text::optional_text(workspace_root),
                prompt@,
                attempts as nat,
                resumed,
            ),
    {
        Agent {
            session: SessionState {
                task: task.clone(),
                attempt: attempts,
                current_state: AgentState::Generating,
                generated_code: prompt.clone(),
                last_error: String::new(),
            },
            task,
            workspace_root,
            prompt,
            attempts,
            resumed,
            tried: false,
            stage: Stage::Ready,
            code: String::new(),
            source: String::new(),
        }
    }

    /// The number of the attempt, counted from one.
    pub fn attempts(&self) -> (r: usize)
        ensures
            r == self@.attempts,
    {
        self.attempts
    }

    /// What the agent waits for.
    pub fn stage(&self) -> (r: Stage)
        ensures
            r == self@.stage,
    {
        self.stage
    }

    /// Ends the task with a failure that the checkpoint tells of.
    fn give_up(&mut self, error: String, ending: Ending) -> (r: Turn)
        ensures
            (final(self)@, r@) == given_up(old(self)@, error@, ending),
    {
        self.session.current_state = AgentState::Failed;
        self.session.last_error = error;
        self.stage = Stage::Over;
        one_save(&self.session, Command::Stop(ending))
    }

    /// Has the model mend code that has failed.
    fn send_back(&mut self, error: String, error_type: &str) -> (r: Turn)
        ensures
            (final(self)@, r@) == sent_back(old(self)@, error@, error_type@),
    {
        self.prompt = build_repair_prompt(
            self.task.as_str(),
            self.code.as_str(),
            error.as_str(),
            error_type,
        );
        self.session.current_state = AgentState::Failed;
        self.session.last_error = error;
        self.stage = Stage::Ready;
        one_save(&self.session, Command::Attempt)
    }

    /// Begins an attempt.
    fn begin(&mut self) -> (r: Turn)
        ensures
            (final(self)@, r@) == begun(old(self)@),
    {
        if self.attempts >= MAX_ATTEMPTS {
            self.stage = Stage::Over;
            return no_save(self.tried, Command::Stop(Ending::Exhausted));
        }
        if !self.resumed {
            self.attempts = self.attempts + 1;
        }
        self.resumed = false;
        self.tried = true;
        self.session = SessionState {
            task: self.task.clone(),
            attempt: self.attempts,
            current_state: AgentState::Generating,
            generated_code: self.prompt.clone(),
            last_error: String::new(),
        };
        self.stage = Stage::Generating;
        one_save(&self.session, Command::Generate { prompt: self.prompt.clone() })
    }

    /// Takes in an answer of the model.
    fn take_answer(&mut self, answer: &str) -> (r: Turn)
        ensures
            (final(self)@, r@) == replied(old(self)@, answer@),
    {
        self.session.current_state = AgentState::Sanitizing;
        let code: String = match sanitize_code(answer) {
            Some(code) => code,
            None => {
                self.prompt = build_fence_reminder(self.task.as_str());
                self.stage = Stage::Ready;
                return one_save(&self.session, Command::Attempt);
            },
        };
        if !is_safe(code.as_str()) {
            let ghost sanitizing = self.session@;
            let mut saves: Vec<SessionState> = Vec::new();
            saves.push(self.session.clone());
            self.session.current_state = AgentState::Failed;
            self.session.last_error = "Security scan intercepted a rule infraction.".to_owned();
            self.stage = Stage::Over;
            saves.push(self.session.clone());
            let turn = Turn { saves, wipes: false, next: Command::Stop(Ending::Refused) };
            assert(turn@.saves =~= seq![sanitizing, self.session@]);
            return turn;
        }
        let hint: Option<String> = extract_target_file_hint(answer);
        let root: Option<&str> = match &self.workspace_root {
            Some(root) => Some(root.as_str()),
            None => None,
        };
        let file: Option<&str> = match &hint {
            Some(hint) => Some(hint.as_str()),
            None => None,
        };
        let target: Target = map_target(root, file);
        self.code = code.clone();
        self.stage = Stage::Writing;
        one_save(&self.session, Command::Write { code, target })
    }

    /// Takes in that the code was written.
    fn take_written(&mut self, path: String) -> (r: Turn)
        ensures
            (final(self)@, r@) == written(old(self)@, path@),
    {
        self.session.current_state = AgentState::Compiling;
        self.session.generated_code = self.code.clone();
        self.stage = Stage::Checking;
        let next: Command = match &self.workspace_root {
            Some(root) => Command::CheckWorkspace { root: root.clone() },
            None => Command::CompileScratchpad { source: path.clone() },
        };
        self.source = path;
        one_save(&self.session, next)
    }

    /// Takes in the outcome of a check.
    fn take_check(&mut self, success: bool, stderr: &str) -> (r: Turn)
        ensures
            (final(self)@, r@) == checked(old(self)@, success, stderr@),
    {
        if !success {
            let error: String = extract_clean_error(stderr);
            return if self.workspace_root.is_some() {
                self.send_back(error, "Cargo Check Error")
            } else {
                self.send_back(error, "Compilation Error")
            };
        }
        self.session.current_state = AgentState::Executing;
        self.stage = Stage::Executing;
        let next: Command = match &self.workspace_root {
            Some(root) => Command::RunWorkspace { root: root.clone() },
            None => Command::RunScratchpad { source: self.source.clone() },
        };
        one_save(&self.session, next)
    }

    /// Takes in the outcome of a run.
    fn take_run(&mut self, result: SandboxExecutionResult) -> (r: Turn)
        ensures
            (final(self)@, r@) == executed(
                old(self)@,
                result.timed_out,
                result.limit_exceeded,
                result.stderr@,
            ),
    {
        if result.timed_out {
            self.send_back(result.stderr, "Runtime Timeout Error")
        } else if result.limit_exceeded {
            self.send_back(result.stderr, "Host Pipe Bomb Exploitation Intercept")
        } else if !result.stderr.as_str().is_empty() {
            self.send_back(result.stderr, "Runtime Crash Error")
        } else {
            self.stage = Stage::Over;
            no_save(true, Command::Stop(Ending::Completed))
        }
    }

    /// Takes in an event and says what it leads to.
    pub fn advance(&mut self, event: Event) -> (r: Turn)
        ensures
            (final(self)@, r@) == advanced(old(self)@, event),
    {
        match (self.stage, event) {
            (Stage::Ready, Event::Ready) => self.begin(),
            (Stage::Generating, Event::Replied { answer }) => self.take_answer(answer.as_str()),
            (Stage::Generating, Event::ReplyFailed { error }) => self.give_up(
                error,
                Ending::Unreachable,
            ),
            (Stage::Writing, Event::Written { path }) => self.take_written(path),
            (Stage::Writing, Event::WriteFailed { error }) => self.give_up(
                error,
                Ending::NotWritten,
            ),
            (Stage::Checking, Event::Checked { success, stderr }) => self.take_check(
                success,
                stderr.as_str(),
            ),
            (Stage::Checking, Event::CheckFailed { error }) => self.give_up(
                error,
                Ending::NotChecked,
            ),
            (Stage::Executing, Event::Executed { result }) => self.take_run(result),
            (Stage::Executing, Event::ExecutionFailed { error }) => self.give_up(
                error,
                Ending::NotRun,
            ),
            (Stage::Executing, Event::RecompileFailed) => {
                self.stage = Stage::Over;
                no_save(false, Command::Stop(Ending::NotRecompiled))
            },
            _ => no_save(false, Command::Ignore),
        }
    }
}

// ── Laws ─────────────────────────────────────────────────────────────────────

/// The agent after the events `es`, one after the other.
pub open spec fn lived(m: Mind, es: Seq<Event>) -> Mind
    decreases es.len(),
{
    if es.len() == 0 {
        m
    } else {
        advanced(lived(m, es.drop_last()), es.last()).0
    }
}

/// How often the model is asked in the course of the events `es`.
pub open spec fn generations(m: Mind, es: Seq<Event>) -> nat
    decreases es.len(),
{
    if es.len() == 0 {
        0
    } else {
        let before = generations(m, es.drop_last());
        if advanced(lived(m, es.drop_last()), es.last()).1.next is Generate {
            before + 1
        } else {
            before
        }
    }
}

/// What holds of the agent in the midst of an attempt: the checkpoint is that of the task
/// and of the attempt, and code that was taken out of an answer is safe and not empty.
pub open spec fn sound(m: Mind) -> bool {
    &&& m.stage == Stage::Generating || m.stage == Stage::Writing || m.stage == Stage::Checking
        || m.stage == Stage::Executing ==> m.session.task == m.task && m.session.attempt
        == m.attempts
    &&& m.stage == Stage::Writing || m.stage == Stage::Checking || m.stage == Stage::Executing
        ==> safe(m.code) && m.code.len() > 0
}

/// The agent stays sound, whatever happens.
pub proof fn law_agent_stays_sound(m: Mind, es: Seq<Event>)
    requires
        m.stage == Stage::Ready,
    ensures
        sound(lived(m, es)),
    decreases es.len(),
{
    if es.len() > 0 {
        law_agent_stays_sound(m, es.drop_last());
    }
}

/// Code that is to be written is safe, is not empty, and is what the answer held.
pub proof fn law_only_safe_code_is_written(m: Mind, e: Event)
    ensures
        advanced(m, e).1.next matches Order::Write { code, target } ==> {
            &&& safe(code)
            &&& code.len() > 0
            &&& e matches Event::Replied { answer } && sanitized(answer@) == Some(code)
        },
{
    if let Event::Replied { answer } = e {
        law_sanitized_code_is_clean(answer@);
    }
}

/// Code that is to be written into a file goes into the project, and not out of it.
pub proof fn law_code_stays_in_the_project(m: Mind, e: Event)
    ensures
        advanced(m, e).1.next matches Order::Write { code, target: Some(p) } ==> {
            &&& m.workspace_root == Some(p.0)
            &&& !text::begins_with(p.1, "/"@)
            &&& !climbs(p.1, 0)
        },
{
    if let (Some(root), Event::Replied { answer }) = (m.workspace_root, e) {
        if let Some(hint) = first_hint(text::lines_of(answer@)) {
            law_target_stays_in_workspace(root, hint);
        }
    }
}

/// Whatever has happened since the task began, only safe code is checked, compiled or run.
pub proof fn law_only_safe_code_is_used(m: Mind, es: Seq<Event>, e: Event)
    requires
        m.stage == Stage::Ready,
    ensures
        ({
            let now = lived(m, es);
            let next = advanced(now, e).1.next;
            next is CheckWorkspace || next is CompileScratchpad || next is RunWorkspace
                || next is RunScratchpad ==> safe(now.code)
        }),
{
    law_agent_stays_sound(m, es);
}

/// Unsafe code ends the task: it is neither written nor run, and the checkpoint tells of
/// the refusal.
pub proof fn law_unsafe_code_is_refused(m: Mind, answer: String, code: Seq<char>)
    requires
        m.stage == Stage::Generating,
        sanitized(answer@) == Some(code),
        !safe(code),
    ensures
        ({
            let (after, turn) = advanced(m, Event::Replied { answer });
            &&& after.stage == Stage::Over
            &&& turn.next == Order::Stop(Ending::Refused)
            &&& turn.saves.last().current_state == AgentState::Failed
            &&& turn.saves.last().last_error == "Security scan intercepted a rule infraction."@
        }),
{
}

/// Code is run only upon a check that it has passed.
pub proof fn law_run_follows_a_passed_check(m: Mind, e: Event)
    ensures
        advanced(m, e).1.next is RunWorkspace || advanced(m, e).1.next is RunScratchpad
            ==> m.stage == Stage::Checking && (e matches Event::Checked { success, stderr }
            && success),
{
}

/// The checkpoint is wiped exactly when the task is completed, or has no attempt left after
/// one that was made; every other end leaves it in place.
pub proof fn law_checkpoint_is_wiped_at_the_end(m: Mind, e: Event)
    ensures
        advanced(m, e).1.wipes <==> advanced(m, e).1.next == Order::Stop(Ending::Completed) || (
        advanced(m, e).1.next == Order::Stop(Ending::Exhausted) && m.tried),
{
}

/// Whether something was tried is whether the model was asked: the checkpoint of a task that
/// is given or taken up is never wiped before that.
pub proof fn law_nothing_is_wiped_untried(m: Mind, es: Seq<Event>, e: Event)
    requires
        m.stage == Stage::Ready,
        !m.tried,
    ensures
        lived(m, es).tried <==> generations(m, es) > 0,
        advanced(lived(m, es), e).1.wipes ==> generations(m, es) > 0,
    decreases es.len(),
{
    if es.len() > 0 {
        law_nothing_is_wiped_untried(m, es.drop_last(), e);
    }
    lemma_only_tried_is_under_way(m, es);
}

/// What is under way was tried.
proof fn lemma_only_tried_is_under_way(m: Mind, es: Seq<Event>)
    requires
        m.stage == Stage::Ready,
    ensures
        lived(m, es).stage != Stage::Ready && lived(m, es).stage != Stage::Over ==> lived(
            m,
            es,
        ).tried,
    decreases es.len(),
{
    if es.len() > 0 {
        lemma_only_tried_is_under_way(m, es.drop_last());
    }
}

/// A task is completed exactly when its code ran within the limits and wrote nothing to its
/// standard error.
pub proof fn law_completion_is_a_clean_run(m: Mind, e: Event)
    ensures
        advanced(m, e).1.next == Order::Stop(Ending::Completed) <==> m.stage == Stage::Executing
            && (e matches Event::Executed { result } && !result.timed_out
            && !result.limit_exceeded && result.stderr@.len() == 0),
{
}

/// Where a task ends without being completed, the last checkpoint tells of a failure,
/// unless the attempts were used up or the binary could not be made.
pub proof fn law_failure_is_saved(m: Mind, e: Event)
    ensures
        advanced(m, e).1.next matches Order::Stop(ending) ==> ending == Ending::Completed || ending
            == Ending::Exhausted || ending == Ending::NotRecompiled || (advanced(
            m,
            e,
        ).1.saves.len() > 0 && advanced(m, e).1.saves.last().current_state == AgentState::Failed),
{
}

/// Every checkpoint that is saved is that of the task and of the attempt.
pub proof fn law_checkpoints_tell_task_and_attempt(m: Mind, es: Seq<Event>, e: Event, i: int)
    requires
        m.stage == Stage::Ready,
        0 <= i < advanced(lived(m, es), e).1.saves.len(),
    ensures
        advanced(lived(m, es), e).1.saves[i].task == m.task,
        advanced(lived(m, es), e).1.saves[i].attempt == advanced(lived(m, es), e).0.attempts,
{
    law_agent_stays_sound(m, es);
    law_task_and_project_stay(m, es);
}

/// The task and the project stay the same.
pub proof fn law_task_and_project_stay(m: Mind, es: Seq<Event>)
    ensures
        lived(m, es).task == m.task,
        lived(m, es).workspace_root == m.workspace_root,
    decreases es.len(),
{
    if es.len() > 0 {
        law_task_and_project_stay(m, es.drop_last());
    }
}

/// How attempts and generations keep pace.
proof fn lemma_attempts_keep_pace(m: Mind, es: Seq<Event>)
    requires
        m.stage == Stage::Ready,
    ensures
        ({
            let now = lived(m, es);
            let taken_up: nat = if m.resumed && !now.resumed {
                1
            } else {
                0
            };
            &&& !m.resumed ==> !now.resumed
            &&& now.resumed ==> now.attempts == m.attempts && generations(m, es) == 0
            &&& now.attempts + taken_up == m.attempts + generations(m, es)
            &&& now.attempts == m.attempts || now.attempts <= MAX_ATTEMPTS
            &&& m.attempts >= MAX_ATTEMPTS ==> generations(m, es) == 0 && now.attempts
                == m.attempts
        }),
    decreases es.len(),
{
    if es.len() > 0 {
        lemma_attempts_keep_pace(m, es.drop_last());
    }
}

/// Whatever happens, the model is asked at most as often as attempts are left, where an
/// attempt that is taken up again counts as left.
pub proof fn law_attempts_are_bounded(m: Mind, es: Seq<Event>)
    requires
        m.stage == Stage::Ready,
    ensures
        m.attempts >= MAX_ATTEMPTS ==> generations(m, es) == 0,
        m.attempts < MAX_ATTEMPTS && !m.resumed ==> generations(m, es) + m.attempts
            <= MAX_ATTEMPTS,
        m.attempts < MAX_ATTEMPTS && m.resumed ==> generations(m, es) + m.attempts <= MAX_ATTEMPTS
            + 1,
{
    lemma_attempts_keep_pace(m, es);
}

/// A task that has ended stays ended, and nothing more is done for it.
pub proof fn law_over_is_over(m: Mind, e: Event)
    requires
        m.stage == Stage::Over,
    ensures
        advanced(m, e).0 == m,
        advanced(m, e).1.next == Order::Ignore,
        advanced(m, e).1.saves.len() == 0,
        !advanced(m, e).1.wipes,
{
}

/// A task that goes on after a failure goes on with a prompt that tells of it: of what was
/// wrong and of the code that was, or else that the code was not in fences.
pub proof fn law_failure_reaches_the_next_prompt(m: Mind, e: Event)
    requires
        advanced(m, e).1.next == Order::Attempt,
    ensures
        ({
            let after = advanced(m, e).0;
            ||| after.prompt == fence_reminder(m.task)
            ||| exists|error_type: Seq<char>|
                after.prompt == #[trigger] repair_prompt(
                    m.task,
                    m.code,
                    after.session.last_error,
                    error_type,
                )
        }),
{
    let after = advanced(m, e).0;
    if after.prompt != fence_reminder(m.task) {
        let last = after.session.last_error;
        assert({
            ||| after.prompt == repair_prompt(m.task, m.code, last, "Cargo Check Error"@)
            ||| after.prompt == repair_prompt(m.task, m.code, last, "Compilation Error"@)
            ||| after.prompt == repair_prompt(m.task, m.code, last, "Runtime Timeout Error"@)
            ||| after.prompt == repair_prompt(
                m.task,
                m.code,
                last,
                "Host Pipe Bomb Exploitation Intercept"@,
            )
            ||| after.prompt == repair_prompt(m.task, m.code, last, "Runtime Crash Error"@)
        });
    }
}

/// A task goes on while it has attempts: the next attempt asks the model with the prompt that
/// is there, and the checkpoint that is saved for it is that of the attempt. It is exhausted
/// exactly where it has had its five attempts.
pub proof fn law_attempts_go_on_until_the_last(m: Mind, e: Event)
    ensures
        m.stage == Stage::Ready && e is Ready && m.attempts < 5 ==> ({
            let (after, turn) = advanced(m, e);
            let number = if m.resumed {
                m.attempts
            } else {
                m.attempts + 1
            };
            &&& turn.next == Order::Generate { prompt: m.prompt }
            &&& after.stage == Stage::Generating
            &&& after.attempts == number
            &&& after.prompt == m.prompt
            &&& !after.resumed
            &&& after.tried
            &&& !turn.wipes
            &&& turn.saves.len() == 1
            &&& turn.saves[0] == after.session
            &&& after.session.task == m.task
            &&& after.session.attempt == number
            &&& after.session.current_state == AgentState::Generating
            &&& after.session.generated_code == m.prompt
            &&& after.session.last_error.len() == 0
        }),
        advanced(m, e).1.next == Order::Stop(Ending::Exhausted) <==> m.stage == Stage::Ready
            && e is Ready && m.attempts >= 5,
        advanced(m, e).1.next is Generate <==> m.stage == Stage::Ready && e is Ready && m.attempts
            < 5,
{
}

/// An answer without code costs the attempt and nothing else: the model is asked again, for
/// the same task, and told of the fences.
pub proof fn law_answer_without_code_is_asked_again(m: Mind, answer: String)
    requires
        m.stage == Stage::Generating,
        sanitized(answer@) is None,
    ensures
        ({
            let (after, turn) = advanced(m, Event::Replied { answer });
            &&& turn.next == Order::Attempt
            &&& after.stage == Stage::Ready
            &&& after.attempts == m.attempts
            &&& text::contains_text(after.prompt, "markdown code fences"@)
            &&& exists|b: Seq<char>| after.prompt == #[trigger] (b + ("\nTask: "@ + m.task))
            &&& !turn.wipes
            &&& turn.saves.len() == 1
            &&& turn.saves[0] == after.session
            &&& after.session == (Checkpoint {
                current_state: AgentState::Sanitizing,
                ..m.session
            })
        }),
{
    let head =
        "Your previous response did not contain standard markdown code fences. Please regenerate and wrap the code properly.\nTask: "@;
    let start = "Your previous response did not contain standard "@;
    let marks = "markdown code fences"@;
    let end = ". Please regenerate and wrap the code properly."@;
    let tail = "\nTask: "@;
    assert(head =~= start + marks + end + tail) by {
        reveal_strlit(
            "Your previous response did not contain standard markdown code fences. Please regenerate and wrap the code properly.\nTask: ",
        );
        reveal_strlit("Your previous response did not contain standard ");
        reveal_strlit("markdown code fences");
        reveal_strlit(". Please regenerate and wrap the code properly.");
        reveal_strlit("\nTask: ");
    }
    let prompt = fence_reminder(m.task);
    let n = start.len() as int;
    assert(prompt.subrange(n, n + marks.len()) =~= marks);
    assert(text::occurs_at(prompt, marks, n));
    assert(prompt =~= (start + marks + end) + (tail + m.task));
}

/// Safe code is written, all of it, and to where the answer hints, wherever in the answer
/// that is: the target is that of the project and of the first hint among all its lines.
pub proof fn law_safe_code_goes_where_the_answer_hints(m: Mind, answer: String, code: Seq<char>)
    requires
        m.stage == Stage::Generating,
        sanitized(answer@) == Some(code),
        safe(code),
    ensures
        ({
            let (after, turn) = advanced(m, Event::Replied { answer });
            &&& turn.next matches Order::Write { code: c, target }
            &&& c == code
            &&& target == mapped_target(m.workspace_root, first_hint(text::lines_of(answer@)))
            &&& after.stage == Stage::Writing
            &&& after.code == code
            &&& after.attempts == m.attempts
            &&& after.prompt == m.prompt
            &&& !turn.wipes
            &&& turn.saves.len() == 1
            &&& turn.saves[0] == after.session
            &&& after.session == (Checkpoint {
                current_state: AgentState::Sanitizing,
                ..m.session
            })
        }),
{
}

/// Where there is a project, and a line of the answer, before which no other names a file,
/// names one that is inside the project, the code goes into that file and not onto the
/// scratchpad.
pub proof fn law_hinted_file_is_written(
    m: Mind,
    answer: String,
    code: Seq<char>,
    root: Seq<char>,
    i: int,
    path: Seq<char>,
)
    requires
        m.stage == Stage::Generating,
        m.workspace_root == Some(root),
        sanitized(answer@) == Some(code),
        safe(code),
        0 <= i < text::lines_of(answer@).len(),
        text::trimmed(text::lines_of(answer@)[i]) == "// TARGET_FILE: "@ + path,
        path.len() > 0,
        text::is_trim(path),
        forall|k: int|
            0 <= k < i ==> !text::begins_with(
                text::trimmed(#[trigger] text::lines_of(answer@)[k]),
                "// TARGET_FILE:"@,
            ),
        !climbs(path, 0),
    ensures
        advanced(m, Event::Replied { answer }).1.next == (Order::Write {
            code,
            target: Some((root, relative_path(path))),
        }),
{
    let lines = text::lines_of(answer@);
    law_named_file_is_the_hint(lines[i], path);
    assert forall|k: int| 0 <= k < i implies line_hint(#[trigger] lines[k]) is None by {
        law_line_without_the_comment_is_no_hint(lines[k]);
    }
    law_first_hint_is_taken(lines, i);
}

/// Code that was written is checked: the project as a whole where there is one, and else the
/// file that was written; and the checkpoint holds the code.
pub proof fn law_written_code_is_checked(m: Mind, path: String)
    requires
        m.stage == Stage::Writing,
    ensures
        ({
            let (after, turn) = advanced(m, Event::Written { path });
            &&& m.workspace_root matches Some(root) ==> turn.next == (Order::CheckWorkspace {
                root,
            })
            &&& m.workspace_root is None ==> turn.next == (Order::CompileScratchpad {
                source: path@,
            })
            &&& after.stage == Stage::Checking
            &&& after.source == path@
            &&& after.code == m.code
            &&& after.attempts == m.attempts
            &&& after.prompt == m.prompt
            &&& !turn.wipes
            &&& turn.saves.len() == 1
            &&& turn.saves[0] == after.session
            &&& after.session == (Checkpoint {
                current_state: AgentState::Compiling,
                generated_code: m.code,
                ..m.session
            })
        }),
{
}

/// Code that passes its check is run: the project where there is one, and else the file that
/// was checked.
pub proof fn law_checked_code_is_run(m: Mind, stderr: String)
    requires
        m.stage == Stage::Checking,
    ensures
        ({
            let (after, turn) = advanced(m, Event::Checked { success: true, stderr });
            &&& m.workspace_root matches Some(root) ==> turn.next == (Order::RunWorkspace { root })
            &&& m.workspace_root is None ==> turn.next == (Order::RunScratchpad {
                source: m.source,
            })
            &&& after.stage == Stage::Executing
            &&& after.code == m.code
            &&& after.attempts == m.attempts
            &&& after.prompt == m.prompt
            &&& !turn.wipes
            &&& turn.saves.len() == 1
            &&& turn.saves[0] == after.session
            &&& after.session == (Checkpoint {
                current_state: AgentState::Executing,
                ..m.session
            })
        }),
{
}

/// Whether a turn sends failed code back to the model: the task goes on with another attempt,
/// the checkpoint tells of the failure, and the prompt of the attempt holds the task, the
/// code, the error and its kind.
pub open spec fn goes_back(
    m: Mind,
    after: Mind,
    turn: Move,
    error: Seq<char>,
    kind: Seq<char>,
) -> bool {
    &&& turn.next == Order::Attempt
    &&& after.stage == Stage::Ready
    &&& after.attempts == m.attempts
    &&& after.code == m.code
    &&& !turn.wipes
    &&& turn.saves.len() == 1
    &&& turn.saves[0] == after.session
    &&& after.session == (Checkpoint {
        current_state: AgentState::Failed,
        last_error: error,
        ..m.session
    })
    &&& text::contains_text(after.prompt, m.task)
    &&& text::contains_text(after.prompt, "[CODE_START]\n"@ + m.code + "\n[CODE_END]"@)
    &&& text::contains_text(after.prompt, kind + " LOG:\n"@ + error)
    &&& text::contains_text(after.prompt, "failed with a "@ + kind + "."@)
}

/// Code that fails its check goes back with the actionable lines of the error output.
pub proof fn law_failed_check_goes_back(m: Mind, stderr: String)
    requires
        m.stage == Stage::Checking,
    ensures
        ({
            let (after, turn) = advanced(m, Event::Checked { success: false, stderr });
            &&& m.workspace_root is Some ==> goes_back(
                m,
                after,
                turn,
                clean_error(stderr@),
                "Cargo Check Error"@,
            )
            &&& m.workspace_root is None ==> goes_back(
                m,
                after,
                turn,
                clean_error(stderr@),
                "Compilation Error"@,
            )
        }),
{
    law_repair_prompt_tells_all(m.task, m.code, clean_error(stderr@), "Cargo Check Error"@);
    law_repair_prompt_tells_all(m.task, m.code, clean_error(stderr@), "Compilation Error"@);
}

/// Code whose run took too long, wrote too much, or wrote to its standard error goes back
/// with all that it wrote there; any other run completes the task, and saves nothing.
pub proof fn law_run_goes_back_or_completes(m: Mind, result: SandboxExecutionResult)
    requires
        m.stage == Stage::Executing,
    ensures
        ({
            let (after, turn) = advanced(m, Event::Executed { result });
            let error = result.stderr@;
            &&& result.timed_out ==> goes_back(m, after, turn, error, "Runtime Timeout Error"@)
            &&& !result.timed_out && result.limit_exceeded ==> goes_back(
                m,
                after,
                turn,
                error,
                "Host Pipe Bomb Exploitation Intercept"@,
            )
            &&& !result.timed_out && !result.limit_exceeded && error.len() > 0 ==> goes_back(
                m,
                after,
                turn,
                error,
                "Runtime Crash Error"@,
            )
            &&& !result.timed_out && !result.limit_exceeded && error.len() == 0 ==> turn.next
                == Order::Stop(Ending::Completed) && turn.wipes && turn.saves.len() == 0
                && after.stage == Stage::Over
        }),
{
    let error = result.stderr@;
    law_repair_prompt_tells_all(m.task, m.code, error, "Runtime Timeout Error"@);
    law_repair_prompt_tells_all(m.task, m.code, error, "Host Pipe Bomb Exploitation Intercept"@);
    law_repair_prompt_tells_all(m.task, m.code, error, "Runtime Crash Error"@);
}

/// What cannot be mended by the model ends the task, and the checkpoint tells why; a binary
/// that cannot be made ends it too.
pub proof fn law_other_failures_end_the_task(m: Mind, e: Event)
    ensures
        ({
            let (after, turn) = advanced(m, e);
            let error = match e {
                Event::ReplyFailed { error } => error@,
                Event::WriteFailed { error } => error@,
                Event::CheckFailed { error } => error@,
                Event::ExecutionFailed { error } => error@,
                _ => Seq::empty(),
            };
            let ending = match (m.stage, e) {
                (Stage::Generating, Event::ReplyFailed { error }) => Some(Ending::Unreachable),
                (Stage::Writing, Event::WriteFailed { error }) => Some(Ending::NotWritten),
                (Stage::Checking, Event::CheckFailed { error }) => Some(Ending::NotChecked),
                (Stage::Executing, Event::ExecutionFailed { error }) => Some(Ending::NotRun),
                _ => None,
            };
            &&& ending matches Some(x) ==> {
                &&& turn.next == Order::Stop(x)
                &&& after.stage == Stage::Over
                &&& !turn.wipes
                &&& turn.saves.len() == 1
                &&& turn.saves[0].current_state == AgentState::Failed
                &&& turn.saves[0].last_error == error
                &&& turn.saves[0].generated_code == m.session.generated_code
                &&& turn.saves[0].task == m.session.task
                &&& turn.saves[0].attempt == m.session.attempt
            }
            &&& m.stage == Stage::Executing && e is RecompileFailed ==> turn.next == Order::Stop(
                Ending::NotRecompiled,
            ) && turn.saves.len() == 0 && !turn.wipes && after.stage == Stage::Over
        }),
{
}

/// Every event that is awaited is answered, and no other: the agent ignores exactly what does
/// not belong to its stage, and is then as it was.
pub proof fn law_only_unawaited_events_are_ignored(m: Mind, e: Event)
    ensures
        advanced(m, e).1.next == Order::Ignore <==> !match m.stage {
            Stage::Ready => e is Ready,
            Stage::Generating => e is Replied || e is ReplyFailed,
            Stage::Writing => e is Written || e is WriteFailed,
            Stage::Checking => e is Checked || e is CheckFailed,
            Stage::Executing => e is Executed || e is ExecutionFailed || e is RecompileFailed,
            Stage::Over => false,
        },
        advanced(m, e).1.next == Order::Ignore ==> advanced(m, e).0 == m && advanced(
            m,
            e,
        ).1.saves.len() == 0 && !advanced(m, e).1.wipes,
{
}

/// An attempt that gives safe code which fails its check uses up one attempt, whatever the
/// attempts before it have come to, and leads to the next.
pub proof fn law_failed_attempt_leads_to_the_next(
    m: Mind,
    answer: String,
    code: Seq<char>,
    path: String,
    stderr: String,
)
    requires
        m.stage == Stage::Ready,
        m.attempts < 5,
        !m.resumed,
        sanitized(answer@) == Some(code),
        safe(code),
    ensures
        ({
            let asked = advanced(m, Event::Ready).0;
            let answered = advanced(asked, Event::Replied { answer }).0;
            let written = advanced(answered, Event::Written { path }).0;
            let (after, turn) = advanced(written, Event::Checked { success: false, stderr });
            &&& after.stage == Stage::Ready
            &&& after.attempts == m.attempts + 1
            &&& turn.next == Order::Attempt
            &&& m.attempts + 1 < 5 ==> advanced(after, Event::Ready).1.next == (Order::Generate {
                prompt: after.prompt,
            })
            &&& text::contains_text(after.prompt, code)
        }),
{
    let asked = advanced(m, Event::Ready).0;
    let answered = advanced(asked, Event::Replied { answer }).0;
    let written = advanced(answered, Event::Written { path }).0;
    law_failed_check_goes_back(written, stderr);
    let prompt = advanced(written, Event::Checked { success: false, stderr }).0.prompt;
    let quoted = "[CODE_START]\n"@ + code + "\n[CODE_END]"@;
    let i = choose|i: int| #[trigger] text::occurs_at(prompt, quoted, i);
    let k = "[CODE_START]\n"@.len() as int;
    assert(quoted.subrange(k, k + code.len()) =~= code);
    assert(text::occurs_at(quoted, code, k));
    text::lemma_part_occurs(prompt, code, i, i + quoted.len(), k);
}

/// A task begins ready for its first attempt, with its prompt, with the attempts that it was
/// given with, and with nothing tried.
pub proof fn law_task_begins_ready(
    task: Seq<char>,
    workspace_root: Option<Seq<char>>,
    prompt: Seq<char>,
    attempts: nat,
    resumed: bool,
)
    ensures
        ({
            let m = fresh(task, workspace_root, prompt, attempts, resumed);
            &&& m.stage == Stage::Ready
            &&& m.task == task
            &&& m.workspace_root == workspace_root
            &&& m.prompt == prompt
            &&& m.attempts == attempts
            &&& m.resumed == resumed
            &&& !m.tried
            &&& attempts < 5 ==> advanced(m, Event::Ready).1.next == (Order::Generate { prompt })
        }),
{
}

/// A refusal is saved after the sanitizing of the answer, as a failure of the same attempt and
/// with what was in work; the task and its attempts stay.
pub proof fn law_refusal_is_saved(m: Mind, answer: String, code: Seq<char>)
    requires
        m.stage == Stage::Generating,
        sanitized(answer@) == Some(code),
        !safe(code),
    ensures
        ({
            let (after, turn) = advanced(m, Event::Replied { answer });
            &&& !turn.wipes
            &&& turn.saves.len() == 2
            &&& turn.saves[0] == (Checkpoint {
                current_state: AgentState::Sanitizing,
                ..m.session
            })
            &&& turn.saves[1].task == m.session.task
            &&& turn.saves[1].attempt == m.session.attempt
            &&& turn.saves[1].generated_code == m.session.generated_code
            &&& turn.saves[1].current_state == AgentState::Failed
            &&& turn.saves[1] == after.session
            &&& after.attempts == m.attempts
        }),
{
}

/// What is said of a turn is what it holds: every checkpoint, in order, whether it wipes, and
/// the command with all its texts.
pub proof fn law_turn_is_read_as_it_is(turn: Turn, i: int)
    ensures
        turn@.saves.len() == turn.saves@.len(),
        0 <= i < turn.saves@.len() ==> turn@.saves[i] == turn.saves@[i]@,
        turn@.wipes == turn.wipes,
        turn@.next == turn.next@,
        turn.next is Attempt <==> turn.next@ is Attempt,
        turn.next is Ignore <==> turn.next@ is Ignore,
        turn.next matches Command::Stop(ending) ==> turn.next@ == Order::Stop(ending),
        turn.next matches Command::Generate { prompt } ==> turn.next@ == (Order::Generate {
            prompt: prompt@,
        }),
        turn.next matches Command::Write { code, target } ==> {
            &&& turn.next@ matches Order::Write { code: c, target: t }
            &&& c == code@
            &&& target is Scratchpad <==> t is None
            &&& target matches Target::Workspace { root, relative } ==> t == Some(
                (root@, relative@),
            )
        },
        turn.next matches Command::CheckWorkspace { root } ==> turn.next@ == (
        Order::CheckWorkspace { root: root@ }),
        turn.next matches Command::CompileScratchpad { source } ==> turn.next@ == (
        Order::CompileScratchpad { source: source@ }),
        turn.next matches Command::RunWorkspace { root } ==> turn.next@ == (Order::RunWorkspace {
            root: root@,
        }),
        turn.next matches Command::RunScratchpad { source } ==> turn.next@ == (
        Order::RunScratchpad { source: source@ }),
{
}

} // verus!
