use miller::compiler::Language;
use miller::orchestrator::{build_fence_reminder, build_repair_prompt, construct_initial_prompt};

#[test]
fn repair_prompt_tells_all() {
    assert_eq!(
        build_repair_prompt("add", "fn a() {}", "error: x", "Compilation Error"),
        "You are an expert systems engineer. The previous code you generated failed with a \
         Compilation Error.\n\nORIGINAL TASK:\nadd\n\nFAILED CODE:\n[CODE_START]\nfn a() {}\n\
         [CODE_END]\n\nCompilation Error LOG:\nerror: x\n\nFix the issue completely. Return the \
         ENTIRE corrected code strictly inside [CODE_START] and [CODE_END] tags without any \
         markdown code fences."
    );
}

#[test]
fn initial_prompt_holds_context_and_task() {
    assert_eq!(
        construct_initial_prompt("\nCTX\n", "add", &Language::Rust),
        "You are Miller, an expert Rust engineer. Return ONLY the executable Rust code \
         requested.\nYou MUST wrap the code inside a standard markdown code block like this:\n\
         ```rust\n// code here\n```\nDo not include any introductory or concluding text.\n\
         \nCTX\n\nTask: add"
    );
    let python = construct_initial_prompt("", "add", &Language::Python);
    assert!(python.starts_with("You are Miller, an expert Python engineer."));
    assert!(python.contains("```python\n// code here"));
    assert!(python.ends_with("text.\n\nTask: add"));
}

#[test]
fn fence_reminder_tells_the_task() {
    assert_eq!(
        build_fence_reminder("add"),
        "Your previous response did not contain standard markdown code fences. Please \
         regenerate and wrap the code properly.\nTask: add"
    );
}
