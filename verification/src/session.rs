//! The checkpoint of a session, and how an interrupted one is taken up again.

use vstd::prelude::*;

use crate::orchestrator::{build_repair_prompt, law_repair_prompt_tells_all, repair_prompt};
use crate::text;

verus! {

/// The stages of a session.
#[derive(Debug, Clone, Copy, PartialEq, Eq, Structural)]
pub enum AgentState {
    Generating,
    Sanitizing,
    SecurityScanning,
    Compiling,
    Executing,
    Parsing,
    Embedding,
    Persisting,
    Recovering,
    Failed,
    Complete,
}

/// The checkpoint of a session.
#[derive(Debug)]
pub struct SessionState {
    pub task: String,
    pub attempt: usize,
    pub current_state: AgentState,
    pub generated_code: String,
    pub last_error: String,
}

impl Clone for SessionState {
    fn clone(&self) -> (r: Self)
        ensures
            r == *self,
    {
        SessionState {
            task: self.task.clone(),
            attempt: self.attempt,
            current_state: self.current_state,
            generated_code: self.generated_code.clone(),
            last_error: self.last_error.clone(),
        }
    }
}

/// What a checkpoint says.
pub struct Checkpoint {
    pub task: Seq<char>,
    pub attempt: nat,
    pub current_state: AgentState,
    pub generated_code: Seq<char>,
    pub last_error: Seq<char>,
}

impl View for SessionState {
    type V = Checkpoint;

    open spec fn view(&self) -> Checkpoint {
        Checkpoint {
            task: self.task@,
            attempt: self.attempt as nat,
            current_state: self.current_state,
            generated_code: self.generated_code@,
            last_error: self.last_error@,
        }
    }
}

/// What `str::to_lowercase` makes of `s`.
pub uninterp spec fn lowercase(s: Seq<char>) -> Seq<char>;

/// `str::to_lowercase`: the Unicode lower-case equivalent of `s`, which the name
/// `lowercase` stands for.
#[verifier::external_body]
fn to_lowercase(s: &str) -> (r: String)
    ensures
        r@ == lowercase(s@),
{
    s.to_lowercase()
}

/// Whether an answer, in lower case, is a yes.
pub fn is_yes(lowered: &str) -> (r: bool)
    ensures
        r == (lowered@ == "y"@),
{
    text::same_text(lowered, "y")
}

/// Whether the answer to the question for resumption is a yes.
pub fn wants_resumption(choice: &str) -> (r: bool)
    ensures
        r == (lowercase(text::trimmed(choice@)) == "y"@),
{
    is_yes(to_lowercase(text::trim(choice).as_str()).as_str())
}

/// What a session starts with when it is taken up again.
#[derive(Debug)]
pub struct Resumption {
    pub task: String,
    pub attempts: usize,
    pub prompt: String,
}

/// The prompt with which a session goes on: a repair prompt where it had failed with an
/// error, and else what was in work.
pub open spec fn resumption_prompt(c: Checkpoint) -> Seq<char> {
    if c.current_state == AgentState::Failed && c.last_error.len() > 0 {
        repair_prompt(c.task, c.generated_code, c.last_error, "Recovered Crash Error"@)
    } else {
        c.generated_code
    }
}

/// Takes up an interrupted session.
pub fn resume(session: &SessionState) -> (r: Resumption)
    ensures
        r.task@ == session.task@,
        r.attempts == session.attempt,
        r.prompt@ == resumption_prompt(session@),
{
    let prompt: String = if session.current_state == AgentState::Failed
        && !session.last_error.as_str().is_empty() {
        build_repair_prompt(
            session.task.as_str(),
            session.generated_code.as_str(),
            session.last_error.as_str(),
            "Recovered Crash Error",
        )
    } else {
        session.generated_code.clone()
    };
    Resumption { task: session.task.clone(), attempts: session.attempt, prompt }
}

/// A session that had failed with an error goes on with a prompt that tells of the task,
/// the code and the error.
pub proof fn law_resumption_tells_of_the_failure(c: Checkpoint)
    requires
        c.current_state == AgentState::Failed,
        c.last_error.len() > 0,
    ensures
        text::contains_text(resumption_prompt(c), c.task),
        text::contains_text(
            resumption_prompt(c),
            "[CODE_START]\n"@ + c.generated_code + "\n[CODE_END]"@,
        ),
        text::contains_text(
            resumption_prompt(c),
            "Recovered Crash Error"@ + " LOG:\n"@ + c.last_error,
        ),
{
    law_repair_prompt_tells_all(
        c.task,
        c.generated_code,
        c.last_error,
        "Recovered Crash Error"@,
    );
}

/// A session goes on with what was in work, unless it had failed with an error.
pub proof fn law_resumption_goes_on_with_what_was_in_work(c: Checkpoint)
    ensures
        c.current_state != AgentState::Failed || c.last_error.len() == 0 ==> resumption_prompt(c)
            == c.generated_code,
{
}

/// What is said of a checkpoint is what it holds.
pub proof fn law_checkpoint_is_read_as_it_is(session: SessionState)
    ensures
        session@.task == session.task@,
        session@.attempt == session.attempt,
        session@.current_state == session.current_state,
        session@.generated_code == session.generated_code@,
        session@.last_error == session.last_error@,
{
}

} // verus!
