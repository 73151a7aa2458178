//! The model server: its requests, its replies, and when a request is sent again.

use vstd::prelude::*;

use crate::http::{HttpRequest, Method, RequestBody};
use crate::json::Json;
use crate::text;

verus! {

// ── Settings ─────────────────────────────────────────────────────────────────

/// Where texts are generated.
pub const OLLAMA_URL: &'static str = "http://localhost:11434/api/generate";

/// Where texts are embedded.
pub const EMBED_URL: &'static str = "http://localhost:11434/api/embeddings";

/// The model that writes code.
pub const MODEL_NAME: &'static str = "qwen2.5-coder:3b";

/// The model that embeds texts.
pub const EMBED_MODEL: &'static str = "all-minilm";

/// The time that a request may take, in seconds.
pub const HTTP_TIMEOUT_SECS: u64 = 120;

/// The time that an idle connection is kept, in seconds.
pub const HTTP_POOL_IDLE_SECS: u64 = 30;

// ── Embeddings ───────────────────────────────────────────────────────────────

/// How many characters of a text are embedded.
pub const MAX_EMBED_CHARS: usize = 500;

/// The request that embeds `text`, of which only the beginning is sent, so that it fits
/// the model.
pub fn embedding_request(text: &str) -> (r: HttpRequest)
    ensures
        r.method == Method::Post,
        r.url@ == EMBED_URL@,
        r.body matches RequestBody::Embed { model, prompt } && model@ == EMBED_MODEL@ && prompt@
            == text::at_most(text@, MAX_EMBED_CHARS as int),
{
    HttpRequest {
        method: Method::Post,
        url: EMBED_URL.to_owned(),
        body: RequestBody::Embed {
            model: EMBED_MODEL.to_owned(),
            prompt: text::first_chars(text, MAX_EMBED_CHARS),
        },
    }
}

/// What is sent of a text to be embedded is its beginning, all of it where it is short,
/// and never more than the limit.
pub proof fn law_embedded_text_is_a_short_beginning(s: Seq<char>)
    ensures
        ({
            let sent = text::at_most(s, MAX_EMBED_CHARS as int);
            &&& sent.len() <= MAX_EMBED_CHARS
            &&& text::begins_with(s, sent)
            &&& s.len() <= MAX_EMBED_CHARS ==> sent == s
        }),
{
    let sent = text::at_most(s, MAX_EMBED_CHARS as int);
    assert(s.subrange(0, sent.len() as int) =~= sent);
}

/// The bits of a component of an embedding; those of zero where it is no number.
pub open spec fn component(value: Json) -> u64 {
    match value {
        Json::Number { double, .. } => double,
        _ => 0,
    }
}

/// The embedding in a reply, by the bits of its components.
pub open spec fn embedding_in(reply: Json) -> Option<Seq<u64>> {
    match reply.list_field("embedding"@) {
        Some(items) => Some(Seq::new(items.len(), |i: int| component(items[i]))),
        None => None,
    }
}

/// Reads the embedding out of a reply.
pub fn embedding_outcome(reply: &Json) -> (r: Result<Vec<u64>, String>)
    ensures
        match r {
            Ok(vector) => embedding_in(*reply) == Some(vector@),
            Err(e) => embedding_in(*reply) is None && e@
                == "Failed to extract valid embedding vectors from Ollama"@,
        },
{
    match reply.get_list("embedding") {
        Some(items) => {
            let mut vector: Vec<u64> = Vec::new();
            let mut i: usize = 0;
            while i < items.len()
                invariant
                    i <= items@.len(),
                    vector@.len() == i,
                    forall|k: int| 0 <= k < i ==> vector@[k] == component(#[trigger] items@[k]),
                decreases items@.len() - i,
            {
                let bits: u64 = match &items[i] {
                    Json::Number { double, single } => *double,
                    _ => 0,
                };
                vector.push(bits);
                i = i + 1;
            }
            assert(embedding_in(*reply)->0 =~= vector@);
            Ok(vector)
        },
        None => Err("Failed to extract valid embedding vectors from Ollama".to_owned()),
    }
}

// ── Generation ───────────────────────────────────────────────────────────────

/// How often a generation is tried.
pub const MAX_RETRIES: usize = 3;

/// How long to wait after a failed try, in seconds.
pub const RETRY_PAUSE_SECS: u64 = 2;

/// The request that generates a text for `prompt`.
pub fn generation_request(prompt: &str) -> (r: HttpRequest)
    ensures
        r.method == Method::Post,
        r.url@ == OLLAMA_URL@,
        r.body matches RequestBody::Generate { model, prompt: p, stream } && model@ == MODEL_NAME@
            && p@ == prompt@ && !stream,
{
    HttpRequest {
        method: Method::Post,
        url: OLLAMA_URL.to_owned(),
        body: RequestBody::Generate {
            model: MODEL_NAME.to_owned(),
            prompt: prompt.to_owned(),
            stream: false,
        },
    }
}

/// What became of a try.
#[derive(Debug)]
pub enum TryOutcome {
    /// The server replied with this value.
    Reply(Json),
    /// The server replied with something that is no JSON.
    Unreadable,
    /// The server could not be reached.
    Unreachable,
}

/// The text that a try gave.
pub open spec fn generated_text(outcome: TryOutcome) -> Option<Seq<char>> {
    match outcome {
        TryOutcome::Reply(value) => value.text_field("response"@),
        _ => None,
    }
}

/// What a try decides.
pub enum Verdict {
    /// The generation is done, with this text.
    Done(Seq<char>),
    /// It is tried again.
    Again,
    /// It has failed.
    GaveUp,
}

/// What try `attempt`, counted from one, decides.
pub open spec fn verdict(attempt: nat, outcome: TryOutcome) -> Verdict {
    match generated_text(outcome) {
        Some(t) => Verdict::Done(t),
        None => if attempt < MAX_RETRIES {
            Verdict::Again
        } else {
            Verdict::GaveUp
        },
    }
}

/// What to do after a try.
#[derive(Debug)]
pub enum RetryStep {
    /// The generation is done, with this text.
    Done(String),
    /// Wait this many seconds, then try again.
    TryAgainAfter { secs: u64 },
    /// Wait this many seconds, then give up with this report.
    GiveUpAfter { secs: u64, report: String },
}

/// A generation that is tried until a text comes or the tries are used up.
#[derive(Debug)]
pub struct Retry {
    attempt: usize,
}

impl Retry {
    /// The number of the try under way, counted from one.
    pub closed spec fn attempt(&self) -> nat {
        self.attempt as nat
    }

    /// The first try.
    pub fn new() -> (r: Self)
        ensures
            r.attempt() == 1,
    {
        Retry { attempt: 1 }
    }

    /// The number of the try under way, counted from one.
    pub fn number(&self) -> (r: usize)
        ensures
            r == self.attempt(),
    {
        self.attempt
    }

    /// Takes in what became of the try under way.
    pub fn after(&mut self, outcome: &TryOutcome) -> (r: RetryStep)
        ensures
            match verdict(old(self).attempt(), *outcome) {
                Verdict::Done(t) => {
                    &&& r matches RetryStep::Done(s) && s@ == t
                    &&& final(self).attempt() == old(self).attempt()
                },
                Verdict::Again => {
                    &&& r == (RetryStep::TryAgainAfter { secs: RETRY_PAUSE_SECS })
                    &&& final(self).attempt() == old(self).attempt() + 1
                },
                Verdict::GaveUp => {
                    &&& r matches RetryStep::GiveUpAfter { secs, report } && secs
                        == RETRY_PAUSE_SECS && report@
                        == "Ollama connections permanently dropped."@
                    &&& final(self).attempt() == old(self).attempt()
                },
            },
    {
        if let TryOutcome::Reply(value) = outcome {
            if let Some(t) = value.get_text("response") {
                return RetryStep::Done(t.clone());
            }
        }
        if self.attempt < MAX_RETRIES {
            self.attempt = self.attempt + 1;
            RetryStep::TryAgainAfter { secs: RETRY_PAUSE_SECS }
        } else {
            RetryStep::GiveUpAfter {
                secs: RETRY_PAUSE_SECS,
                report: "Ollama connections permanently dropped.".to_owned(),
            }
        }
    }
}

// ── Laws ─────────────────────────────────────────────────────────────────────

/// How a generation ends that is at try `attempt`, where try `i` has the outcome
/// `outcomes[i - 1]`: the number of the last try, which is how many requests were sent, and
/// what it decides; none where the outcomes do not decide it.
pub open spec fn generation(outcomes: Seq<TryOutcome>, attempt: nat) -> Option<(nat, Verdict)>
    decreases outcomes.len() + 1 - attempt,
{
    if attempt < 1 || attempt > outcomes.len() {
        None
    } else {
        match verdict(attempt, outcomes[attempt - 1]) {
            Verdict::Again => generation(outcomes, attempt + 1),
            decided => Some((attempt, decided)),
        }
    }
}

/// Tries without a text are passed over.
proof fn lemma_pass_over(outcomes: Seq<TryOutcome>, attempt: nat, k: nat)
    requires
        1 <= attempt <= k <= MAX_RETRIES,
        k <= outcomes.len(),
        forall|i: int| attempt - 1 <= i < k - 1 ==> generated_text(#[trigger] outcomes[i]) is None,
    ensures
        generation(outcomes, attempt) == generation(outcomes, k),
    decreases k - attempt,
{
    if attempt < k {
        assert(generated_text(outcomes[attempt - 1]) is None);
        lemma_pass_over(outcomes, attempt + 1, k);
    }
}

/// A generation gives the text of the earliest try that has one, and sends no request after
/// that.
pub proof fn law_generation_takes_the_first_text(outcomes: Seq<TryOutcome>, k: int)
    requires
        0 <= k < MAX_RETRIES,
        k < outcomes.len(),
        generated_text(outcomes[k]) is Some,
        forall|i: int| 0 <= i < k ==> generated_text(#[trigger] outcomes[i]) is None,
    ensures
        generation(outcomes, 1) == Some(
            ((k + 1) as nat, Verdict::Done(generated_text(outcomes[k])->0)),
        ),
{
    lemma_pass_over(outcomes, 1, (k + 1) as nat);
}

/// A generation fails when as many tries as are allowed have had no text, and with the last
/// of them, whatever would come after it.
pub proof fn law_generation_gives_up(outcomes: Seq<TryOutcome>)
    requires
        outcomes.len() >= MAX_RETRIES,
        forall|i: int| 0 <= i < MAX_RETRIES ==> generated_text(#[trigger] outcomes[i]) is None,
    ensures
        generation(outcomes, 1) == Some((MAX_RETRIES as nat, Verdict::GaveUp)),
{
    lemma_pass_over(outcomes, 1, MAX_RETRIES as nat);
    assert(generated_text(outcomes[MAX_RETRIES - 1]) is None);
}

/// An embedding is read component by component, with zero for what is no number, from the
/// list that a reply has for it; a reply without such a list has no embedding.
pub proof fn law_embedding_is_read_in_full(reply: Json, i: int)
    ensures
        reply.field("embedding"@) matches Some(Json::List(items)) ==> ({
            &&& embedding_in(reply) matches Some(v)
            &&& v.len() == items@.len()
            &&& 0 <= i < items@.len() ==> (items@[i] matches Json::Number { double, single }
                ==> v[i] == double)
            &&& 0 <= i < items@.len() ==> !(items@[i] is Number) ==> v[i] == 0
        }),
        !(reply.field("embedding"@) is Some && reply.field("embedding"@)->0 is List)
            ==> embedding_in(reply) is None,
{
}

/// A try gives the text of the reply, whatever that is, and gives none without a reply or
/// without a text in it.
pub proof fn law_try_gives_the_text_of_the_reply(outcome: TryOutcome)
    ensures
        outcome matches TryOutcome::Reply(value) ==> (value.field("response"@) matches Some(
            Json::Text(t),
        ) ==> generated_text(outcome) == Some(t@)),
        outcome matches TryOutcome::Reply(value) ==> !(value.field("response"@) is Some
            && value.field("response"@)->0 is Text) ==> generated_text(outcome) is None,
        outcome is Unreadable || outcome is Unreachable ==> generated_text(outcome) is None,
{
}

/// A try with a text is the last, at whatever try; one without is followed by another unless
/// it was the third.
pub proof fn law_tries_go_on_until_the_third(attempt: nat, outcome: TryOutcome)
    ensures
        generated_text(outcome) matches Some(t) ==> verdict(attempt, outcome) == Verdict::Done(t),
        generated_text(outcome) is None && attempt < 3 ==> verdict(attempt, outcome)
            == Verdict::Again,
        generated_text(outcome) is None && attempt >= 3 ==> verdict(attempt, outcome)
            == Verdict::GaveUp,
{
}

/// What is sent of a text to be embedded are its first five hundred characters, or all of it
/// where it has fewer.
pub proof fn law_five_hundred_characters_are_embedded(s: Seq<char>, i: int)
    ensures
        ({
            let sent = text::at_most(s, MAX_EMBED_CHARS as int);
            &&& sent.len() == if s.len() < 500 {
                s.len()
            } else {
                500
            }
            &&& 0 <= i < sent.len() ==> sent[i] == s[i]
        }),
{
}

} // verus!
