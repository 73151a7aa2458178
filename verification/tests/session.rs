use miller::orchestrator::build_repair_prompt;
use miller::session::{is_yes, resume, wants_resumption, AgentState, SessionState};

fn session(state: AgentState, error: &str) -> SessionState {
    SessionState {
        task: "add".to_string(),
        attempt: 3,
        current_state: state,
        generated_code: "fn a() {}".to_string(),
        last_error: error.to_string(),
    }
}

#[test]
fn resumption_takes_a_yes() {
    assert!(wants_resumption("y\n"));
    assert!(wants_resumption("  Y\r\n"));
    assert!(!wants_resumption("yes"));
    assert!(!wants_resumption("\n"));
    assert!(!wants_resumption("n"));
    assert!(is_yes("y"));
    assert!(!is_yes("Y"));
}

#[test]
fn failed_session_goes_on_with_a_repair_prompt() {
    let r = resume(&session(AgentState::Failed, "error: x"));
    assert_eq!(r.task, "add");
    assert_eq!(r.attempts, 3);
    assert_eq!(
        r.prompt,
        build_repair_prompt("add", "fn a() {}", "error: x", "Recovered Crash Error")
    );
}

#[test]
fn other_sessions_go_on_with_what_was_in_work() {
    assert_eq!(resume(&session(AgentState::Failed, "")).prompt, "fn a() {}");
    assert_eq!(resume(&session(AgentState::Compiling, "error: x")).prompt, "fn a() {}");
    assert_eq!(resume(&session(AgentState::Generating, "")).prompt, "fn a() {}");
}

#[test]
fn checkpoints_can_be_copied() {
    let a = session(AgentState::Executing, "e");
    let b = a.clone();
    assert_eq!(format!("{:?}", a), format!("{:?}", b));
}
