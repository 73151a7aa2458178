//! The prompts that a model is given.

use vstd::prelude::*;

use crate::compiler::Language;
use crate::text;

verus! {

/// The prompt that asks a model to mend code that failed.
pub open spec fn repair_prompt(
    original_task: Seq<char>,
    broken_code: Seq<char>,
    error_log: Seq<char>,
    error_type: Seq<char>,
) -> Seq<char> {
    "You are an expert systems engineer. The previous code you generated failed with a "@
        + error_type + ".\n\nORIGINAL TASK:\n"@ + original_task
        + "\n\nFAILED CODE:\n[CODE_START]\n"@ + broken_code + "\n[CODE_END]\n\n"@ + error_type
        + " LOG:\n"@ + error_log
        + "\n\nFix the issue completely. Return the ENTIRE corrected code strictly inside [CODE_START] and [CODE_END] tags without any markdown code fences."@
}

/// Builds a repair prompt from a failed attempt. `error_type` is surfaced prominently, so
/// that the model can tell the kind of failure before it attempts a fix.
pub fn build_repair_prompt(
    original_task: &str,
    broken_code: &str,
    error_log: &str,
    error_type: &str,
) -> (r: String)
    ensures
        r@ == repair_prompt(original_task@, broken_code@, error_log@, error_type@),
{
    let mut out: String =
        "You are an expert systems engineer. The previous code you generated failed with a ".to_owned();
    out.append(error_type);
    out.append(".\n\nORIGINAL TASK:\n");
    out.append(original_task);
    out.append("\n\nFAILED CODE:\n[CODE_START]\n");
    out.append(broken_code);
    out.append("\n[CODE_END]\n\n");
    out.append(error_type);
    out.append(" LOG:\n");
    out.append(error_log);
    out.append(
        "\n\nFix the issue completely. Return the ENTIRE corrected code strictly inside [CODE_START] and [CODE_END] tags without any markdown code fences.",
    );
    out
}

/// The name of a language in a prompt.
pub open spec fn language_label(language: Language) -> Seq<char> {
    match language {
        Language::Rust => "Rust"@,
        Language::Python => "Python"@,
    }
}

/// The mark of a language on a code fence.
pub open spec fn language_fence(language: Language) -> Seq<char> {
    match language {
        Language::Rust => "rust"@,
        Language::Python => "python"@,
    }
}

/// The prompt that asks a model for code.
pub open spec fn initial_prompt(
    context_code: Seq<char>,
    original_task: Seq<char>,
    language: Language,
) -> Seq<char> {
    "You are Miller, an expert "@ + language_label(language)
        + " engineer. Return ONLY the executable "@ + language_label(language)
        + " code requested.\nYou MUST wrap the code inside a standard markdown code block like this:\n```"@
        + language_fence(language)
        + "\n// code here\n```\nDo not include any introductory or concluding text.\n"@
        + context_code + "\nTask: "@ + original_task
}

/// Builds the first prompt of a task, with the retrieved context, which may be empty, and
/// the language in which the code is wanted.
pub fn construct_initial_prompt(
    context_code: &str,
    original_task: &str,
    language: &Language,
) -> (r: String)
    ensures
        r@ == initial_prompt(context_code@, original_task@, *language),
{
    let label: &'static str = match language {
        Language::Rust => "Rust",
        Language::Python => "Python",
    };
    let fence: &'static str = match language {
        Language::Rust => "rust",
        Language::Python => "python",
    };
    let mut out: String = "You are Miller, an expert ".to_owned();
    out.append(label);
    out.append(" engineer. Return ONLY the executable ");
    out.append(label);
    out.append(
        " code requested.\nYou MUST wrap the code inside a standard markdown code block like this:\n```",
    );
    out.append(fence);
    out.append("\n// code here\n```\nDo not include any introductory or concluding text.\n");
    out.append(context_code);
    out.append("\nTask: ");
    out.append(original_task);
    out
}

/// The prompt that asks a model to wrap its code in fences.
pub open spec fn fence_reminder(original_task: Seq<char>) -> Seq<char> {
    "Your previous response did not contain standard markdown code fences. Please regenerate and wrap the code properly.\nTask: "@
        + original_task
}

/// Builds the prompt that asks a model to wrap its code in fences.
pub fn build_fence_reminder(original_task: &str) -> (r: String)
    ensures
        r@ == fence_reminder(original_task@),
{
    let mut out: String =
        "Your previous response did not contain standard markdown code fences. Please regenerate and wrap the code properly.\nTask: ".to_owned();
    out.append(original_task);
    out
}

// ── Laws ─────────────────────────────────────────────────────────────────────

/// A text stands between any two that surround it.
proof fn lemma_stands_between(before: Seq<char>, s: Seq<char>, after: Seq<char>)
    ensures
        text::contains_text(before + s + after, s),
{
    let all = before + s + after;
    let b = before.len() as int;
    assert(all.subrange(b, b + s.len()) =~= s);
    assert(text::occurs_at(all, s, b));
}

/// A repair prompt tells the model the task, the code that failed, what went wrong and
/// what kind of failure it was.
#[verifier::rlimit(50)]
#[verifier::spinoff_prover]
pub proof fn law_repair_prompt_tells_all(
    original_task: Seq<char>,
    broken_code: Seq<char>,
    error_log: Seq<char>,
    error_type: Seq<char>,
)
    ensures
        ({
            let prompt = repair_prompt(original_task, broken_code, error_log, error_type);
            &&& text::contains_text(prompt, original_task)
            &&& text::contains_text(
                prompt,
                "[CODE_START]\n"@ + broken_code + "\n[CODE_END]"@,
            )
            &&& text::contains_text(prompt, error_type + " LOG:\n"@ + error_log)
            &&& text::contains_text(prompt, "failed with a "@ + error_type + "."@)
        }),
{
    let prompt = repair_prompt(original_task, broken_code, error_log, error_type);
    let head =
        "You are an expert systems engineer. The previous code you generated failed with a "@;
    let h = "You are an expert systems engineer. The previous code you generated "@;
    let t = ".\n\nORIGINAL TASK:\n"@;
    let c = "\n\nFAILED CODE:\n[CODE_START]\n"@;
    let e = "\n[CODE_END]\n\n"@;
    let l = " LOG:\n"@;
    let f =
        "\n\nFix the issue completely. Return the ENTIRE corrected code strictly inside [CODE_START] and [CODE_END] tags without any markdown code fences."@;
    assert(head =~= h + "failed with a "@) by {
        reveal_strlit(
            "You are an expert systems engineer. The previous code you generated failed with a ",
        );
        reveal_strlit("You are an expert systems engineer. The previous code you generated ");
        reveal_strlit("failed with a ");
    }
    assert(t =~= "."@ + "\n\nORIGINAL TASK:\n"@) by {
        reveal_strlit(".\n\nORIGINAL TASK:\n");
        reveal_strlit(".");
        reveal_strlit("\n\nORIGINAL TASK:\n");
    }
    assert(c =~= "\n\nFAILED CODE:\n"@ + "[CODE_START]\n"@) by {
        reveal_strlit("\n\nFAILED CODE:\n[CODE_START]\n");
        reveal_strlit("\n\nFAILED CODE:\n");
        reveal_strlit("[CODE_START]\n");
    }
    assert(e =~= "\n[CODE_END]"@ + "\n\n"@) by {
        reveal_strlit("\n[CODE_END]\n\n");
        reveal_strlit("\n[CODE_END]");
        reveal_strlit("\n\n");
    }
    let after_code = error_type + l + error_log + f;
    assert(text::contains_text(prompt, original_task)) by {
        let rest = c + broken_code + e + after_code;
        lemma_stands_between(head + error_type + t, original_task, rest);
        assert(prompt =~= head + error_type + t + original_task + rest);
    }
    let quoted = "[CODE_START]\n"@ + broken_code + "\n[CODE_END]"@;
    assert(text::contains_text(prompt, quoted)) by {
        let before = head + error_type + t + original_task + "\n\nFAILED CODE:\n"@;
        lemma_stands_between(before, quoted, "\n\n"@ + after_code);
        assert(prompt =~= before + quoted + ("\n\n"@ + after_code));
    }
    let log = error_type + l + error_log;
    assert(text::contains_text(prompt, log)) by {
        let before = head + error_type + t + original_task + c + broken_code + e;
        lemma_stands_between(before, log, f);
        assert(prompt =~= before + log + f);
    }
    let kind = "failed with a "@ + error_type + "."@;
    assert(text::contains_text(prompt, kind)) by {
        let after = "\n\nORIGINAL TASK:\n"@ + original_task + c + broken_code + e + after_code;
        lemma_stands_between(h, kind, after);
        assert(prompt =~= h + kind + after);
    }
}

/// The first prompt of a task holds the retrieved context and ends with the task.
pub proof fn law_initial_prompt_holds_context_and_task(
    context_code: Seq<char>,
    original_task: Seq<char>,
    language: Language,
)
    ensures
        ({
            let prompt = initial_prompt(context_code, original_task, language);
            let tail = context_code + "\nTask: "@ + original_task;
            &&& text::occurs_at(prompt, tail, prompt.len() - tail.len())
            &&& text::contains_text(prompt, "```"@ + language_fence(language) + "\n"@)
        }),
{
    let prompt = initial_prompt(context_code, original_task, language);
    let tail = context_code + "\nTask: "@ + original_task;
    let a = "You are Miller, an expert "@ + language_label(language)
        + " engineer. Return ONLY the executable "@ + language_label(language);
    let b =
        " code requested.\nYou MUST wrap the code inside a standard markdown code block like this:\n```"@;
    let b0 =
        " code requested.\nYou MUST wrap the code inside a standard markdown code block like this:\n"@;
    let d = "\n// code here\n```\nDo not include any introductory or concluding text.\n"@;
    let d0 = "// code here\n```\nDo not include any introductory or concluding text.\n"@;
    assert(b =~= b0 + "```"@) by {
        reveal_strlit(
            " code requested.\nYou MUST wrap the code inside a standard markdown code block like this:\n```",
        );
        reveal_strlit(
            " code requested.\nYou MUST wrap the code inside a standard markdown code block like this:\n",
        );
        reveal_strlit("```");
    }
    assert(d =~= "\n"@ + d0) by {
        reveal_strlit(
            "\n// code here\n```\nDo not include any introductory or concluding text.\n",
        );
        reveal_strlit("// code here\n```\nDo not include any introductory or concluding text.\n");
        reveal_strlit("\n");
    }
    let n = prompt.len() - tail.len();
    assert(prompt.subrange(n, prompt.len() as int) =~= tail);
    let mark = "```"@ + language_fence(language) + "\n"@;
    lemma_stands_between(a + b0, mark, d0 + tail);
    assert(prompt =~= a + b0 + mark + (d0 + tail));
}

/// A repair prompt asks for the whole of the corrected code, and for the marks around it; and
/// what it tells stands in it in this order: the kind of failure, the task, the code, the
/// log.
pub proof fn law_repair_prompt_keeps_its_order(
    original_task: Seq<char>,
    broken_code: Seq<char>,
    error_log: Seq<char>,
    error_type: Seq<char>,
)
    ensures
        exists|a: Seq<char>, b: Seq<char>, c: Seq<char>, d: Seq<char>, e: Seq<char>, f: Seq<char>|
            {
                &&& repair_prompt(original_task, broken_code, error_log, error_type) == #[trigger] (
                a + error_type + b + original_task + c + broken_code + d + error_type + e + error_log
                    + f)
                &&& text::contains_text(f, "Return the ENTIRE corrected code"@)
                &&& text::contains_text(f, "[CODE_START] and [CODE_END]"@)
            },
{
    let a =
        "You are an expert systems engineer. The previous code you generated failed with a "@;
    let b = ".\n\nORIGINAL TASK:\n"@;
    let c = "\n\nFAILED CODE:\n[CODE_START]\n"@;
    let d = "\n[CODE_END]\n\n"@;
    let e = " LOG:\n"@;
    let f =
        "\n\nFix the issue completely. Return the ENTIRE corrected code strictly inside [CODE_START] and [CODE_END] tags without any markdown code fences."@;
    assert(repair_prompt(original_task, broken_code, error_log, error_type) == a + error_type + b
        + original_task + c + broken_code + d + error_type + e + error_log + f);
    let start = "\n\nFix the issue completely. "@;
    let ask = "Return the ENTIRE corrected code"@;
    let mid = " strictly inside "@;
    let tags = "[CODE_START] and [CODE_END]"@;
    let end = " tags without any markdown code fences."@;
    assert(f =~= start + ask + (mid + tags + end)) by {
        reveal_strlit(
            "\n\nFix the issue completely. Return the ENTIRE corrected code strictly inside [CODE_START] and [CODE_END] tags without any markdown code fences.",
        );
        reveal_strlit("\n\nFix the issue completely. ");
        reveal_strlit("Return the ENTIRE corrected code");
        reveal_strlit(" strictly inside ");
        reveal_strlit("[CODE_START] and [CODE_END]");
        reveal_strlit(" tags without any markdown code fences.");
    }
    lemma_stands_between(start, ask, mid + tags + end);
    assert(f =~= (start + ask + mid) + tags + end);
    lemma_stands_between(start + ask + mid, tags, end);
}

/// The first prompt of a task names the language, asks for code alone and for a fence with the
/// mark of the language, and then gives the context and the task, whatever they are.
pub proof fn law_initial_prompt_depends_on_the_language_alone(
    context_code: Seq<char>,
    original_task: Seq<char>,
    language: Language,
)
    ensures
        exists|head: Seq<char>|
            {
                &&& initial_prompt(context_code, original_task, language) == #[trigger] (head
                    + context_code + "\nTask: "@ + original_task)
                &&& initial_prompt(Seq::empty(), Seq::empty(), language) == head + "\nTask: "@
            },
        language_label(Language::Rust) == "Rust"@,
        language_label(Language::Python) == "Python"@,
        language_fence(Language::Rust) == "rust"@,
        language_fence(Language::Python) == "python"@,
        text::begins_with(
            initial_prompt(context_code, original_task, language),
            "You are Miller, an expert "@ + language_label(language)
                + " engineer. Return ONLY the executable "@ + language_label(language)
                + " code requested."@,
        ),
{
    let prompt = initial_prompt(context_code, original_task, language);
    let a = "You are Miller, an expert "@ + language_label(language)
        + " engineer. Return ONLY the executable "@ + language_label(language);
    let b =
        " code requested.\nYou MUST wrap the code inside a standard markdown code block like this:\n```"@;
    let b0 = " code requested."@;
    let d = "\n// code here\n```\nDo not include any introductory or concluding text.\n"@;
    let head = a + b + language_fence(language) + d;
    let empty = Seq::<char>::empty();
    assert(prompt =~= head + context_code + "\nTask: "@ + original_task);
    assert(initial_prompt(empty, empty, language) =~= head + "\nTask: "@);
    assert(b.len() >= b0.len() && b.take(b0.len() as int) =~= b0) by {
        reveal_strlit(
            " code requested.\nYou MUST wrap the code inside a standard markdown code block like this:\n```",
        );
        reveal_strlit(" code requested.");
    }
    let p = a + b0;
    assert(prompt.subrange(0, p.len() as int) =~= p);
}

/// A reminder of the fences ends with the task.
pub proof fn law_reminder_depends_on_the_task_alone(original_task: Seq<char>)
    ensures
        fence_reminder(original_task) == fence_reminder(Seq::empty()) + original_task,
{
    assert(fence_reminder(original_task) =~= fence_reminder(Seq::empty()) + original_task);
}

/// All repair prompts have the same words around what they tell, whatever that is: two of them
/// differ in the task, the code, the log and the kind of failure alone.
pub proof fn law_repair_prompts_have_the_same_words(
    task: Seq<char>,
    code: Seq<char>,
    log: Seq<char>,
    kind: Seq<char>,
    other_task: Seq<char>,
    other_code: Seq<char>,
    other_log: Seq<char>,
    other_kind: Seq<char>,
)
    ensures
        exists|a: Seq<char>, b: Seq<char>, c: Seq<char>, d: Seq<char>, e: Seq<char>, f: Seq<char>|
            {
                &&& repair_prompt(task, code, log, kind) == #[trigger] (a + kind + b + task + c
                    + code + d + kind + e + log + f)
                &&& repair_prompt(other_task, other_code, other_log, other_kind) == a + other_kind
                    + b + other_task + c + other_code + d + other_kind + e + other_log + f
            },
{
    let a =
        "You are an expert systems engineer. The previous code you generated failed with a "@;
    let b = ".\n\nORIGINAL TASK:\n"@;
    let c = "\n\nFAILED CODE:\n[CODE_START]\n"@;
    let d = "\n[CODE_END]\n\n"@;
    let e = " LOG:\n"@;
    let f =
        "\n\nFix the issue completely. Return the ENTIRE corrected code strictly inside [CODE_START] and [CODE_END] tags without any markdown code fences."@;
    assert(repair_prompt(task, code, log, kind) == a + kind + b + task + c + code + d + kind + e
        + log + f);
}

} // verus!
