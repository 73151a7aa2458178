use miller::agent::{starting_prompt, Agent, Command, Ending, Event, Stage, Turn, MAX_ATTEMPTS};
use miller::compiler::Language;
use miller::orchestrator::{build_fence_reminder, build_repair_prompt, construct_initial_prompt};
use miller::sandbox::{SandboxExecutionResult, SandboxMetrics};
use miller::session::AgentState;
use miller::workspace::Target;

const CODE: &str = "fn main() {}";

fn agent(root: Option<&str>) -> Agent {
    Agent::new("add".to_string(), root.map(String::from), "prompt".to_string(), 0, false)
}

fn answer(code: &str) -> Event {
    Event::Replied { answer: format!("```rust\n{}\n```", code) }
}

fn ran(stderr: &str, timed_out: bool, limit_exceeded: bool) -> Event {
    Event::Executed {
        result: SandboxExecutionResult {
            stdout: "out".to_string(),
            stderr: stderr.to_string(),
            timed_out,
            limit_exceeded,
            metrics: SandboxMetrics::default(),
        },
    }
}

fn states(turn: &Turn) -> Vec<AgentState> {
    turn.saves.iter().map(|s| s.current_state).collect()
}

fn up_to_run(a: &mut Agent) {
    a.advance(Event::Ready);
    a.advance(answer(CODE));
    a.advance(Event::Written { path: "sandbox.rs".to_string() });
    a.advance(Event::Checked { success: true, stderr: String::new() });
    assert_eq!(a.stage(), Stage::Executing);
}

fn prompt_of_next_attempt(a: &mut Agent) -> String {
    match a.advance(Event::Ready).next {
        Command::Generate { prompt } => prompt,
        other => panic!("{:?}", other),
    }
}

#[test]
fn starting_prompt_is_kept_or_made() {
    assert_eq!(starting_prompt("p".to_string(), "c", "t", &Language::Rust), "p");
    assert_eq!(
        starting_prompt(String::new(), "c", "t", &Language::Rust),
        construct_initial_prompt("c", "t", &Language::Rust)
    );
}

#[test]
fn clean_run_completes_the_task() {
    let mut a = agent(None);
    assert_eq!(a.stage(), Stage::Ready);
    let t = a.advance(Event::Ready);
    assert!(matches!(&t.next, Command::Generate { prompt } if prompt == "prompt"));
    assert_eq!(states(&t), vec![AgentState::Generating]);
    assert_eq!(t.saves[0].task, "add");
    assert_eq!(t.saves[0].attempt, 1);
    assert_eq!(t.saves[0].generated_code, "prompt");
    let t = a.advance(answer(CODE));
    assert_eq!(states(&t), vec![AgentState::Sanitizing]);
    assert!(matches!(&t.next, Command::Write { code, target: Target::Scratchpad } if code == CODE));
    let t = a.advance(Event::Written { path: "sandbox.rs".to_string() });
    assert_eq!(states(&t), vec![AgentState::Compiling]);
    assert_eq!(t.saves[0].generated_code, CODE);
    assert!(matches!(&t.next, Command::CompileScratchpad { source } if source == "sandbox.rs"));
    let t = a.advance(Event::Checked { success: true, stderr: "warning".to_string() });
    assert_eq!(states(&t), vec![AgentState::Executing]);
    assert!(matches!(&t.next, Command::RunScratchpad { source } if source == "sandbox.rs"));
    let t = a.advance(ran("", false, false));
    assert!(t.saves.is_empty() && t.wipes);
    assert!(matches!(t.next, Command::Stop(Ending::Completed)));
    assert_eq!(a.stage(), Stage::Over);
    assert_eq!(a.attempts(), 1);
}

#[test]
fn project_is_checked_and_run_as_a_whole() {
    let mut a = agent(Some("/p"));
    a.advance(Event::Ready);
    let t = a.advance(answer("// TARGET_FILE: ./src/lib.rs\nfn f() {}"));
    match t.next {
        Command::Write { code, target: Target::Workspace { root, relative } } => {
            assert_eq!(code, "// TARGET_FILE: ./src/lib.rs\nfn f() {}");
            assert_eq!((root.as_str(), relative.as_str()), ("/p", "src/lib.rs"));
        }
        other => panic!("{:?}", other),
    }
    let t = a.advance(Event::Written { path: "/p/src/lib.rs".to_string() });
    assert!(matches!(&t.next, Command::CheckWorkspace { root } if root == "/p"));
    let t = a.advance(Event::Checked { success: true, stderr: String::new() });
    assert!(matches!(&t.next, Command::RunWorkspace { root } if root == "/p"));
}

#[test]
fn answer_without_code_is_asked_for_again() {
    let mut a = agent(None);
    a.advance(Event::Ready);
    let t = a.advance(Event::Replied { answer: "no code".to_string() });
    assert!(matches!(t.next, Command::Attempt));
    assert_eq!(states(&t), vec![AgentState::Sanitizing]);
    assert_eq!(prompt_of_next_attempt(&mut a), build_fence_reminder("add"));
    assert_eq!(a.attempts(), 2);
}

#[test]
fn unsafe_code_is_refused() {
    let mut a = agent(None);
    a.advance(Event::Ready);
    let t = a.advance(answer("use std::net::TcpStream;"));
    assert!(matches!(t.next, Command::Stop(Ending::Refused)));
    assert_eq!(states(&t), vec![AgentState::Sanitizing, AgentState::Failed]);
    assert_eq!(t.saves[1].last_error, "Security scan intercepted a rule infraction.");
    assert!(!t.wipes);
    assert_eq!(a.stage(), Stage::Over);
}

#[test]
fn failed_check_is_sent_back() {
    for (root, kind) in [(None, "Compilation Error"), (Some("/p"), "Cargo Check Error")] {
        let mut a = agent(root);
        a.advance(Event::Ready);
        a.advance(answer(CODE));
        a.advance(Event::Written { path: "x".to_string() });
        let t = a.advance(Event::Checked {
            success: false,
            stderr: "noise\nerror: x\nmore".to_string(),
        });
        assert!(matches!(t.next, Command::Attempt));
        assert_eq!(states(&t), vec![AgentState::Failed]);
        assert_eq!(t.saves[0].last_error, "error: x");
        assert_eq!(t.saves[0].generated_code, CODE);
        assert_eq!(
            prompt_of_next_attempt(&mut a),
            build_repair_prompt("add", CODE, "error: x", kind)
        );
    }
}

#[test]
fn failed_run_is_sent_back() {
    for (timed_out, limit_exceeded, kind) in [
        (true, false, "Runtime Timeout Error"),
        (true, true, "Runtime Timeout Error"),
        (false, true, "Host Pipe Bomb Exploitation Intercept"),
        (false, false, "Runtime Crash Error"),
    ] {
        let mut a = agent(None);
        up_to_run(&mut a);
        let t = a.advance(ran("oops", timed_out, limit_exceeded));
        assert!(matches!(t.next, Command::Attempt));
        assert_eq!(states(&t), vec![AgentState::Failed]);
        assert_eq!(t.saves[0].last_error, "oops");
        assert_eq!(
            prompt_of_next_attempt(&mut a),
            build_repair_prompt("add", CODE, "oops", kind)
        );
    }
    let mut a = agent(None);
    up_to_run(&mut a);
    assert!(matches!(a.advance(ran("", true, false)).next, Command::Attempt));
}

#[test]
fn failures_end_the_task_and_are_saved() {
    let error = || "gone".to_string();
    let mut a = agent(None);
    a.advance(Event::Ready);
    let t = a.advance(Event::ReplyFailed { error: error() });
    assert!(matches!(t.next, Command::Stop(Ending::Unreachable)));
    assert_eq!((states(&t), t.saves[0].last_error.as_str()), (vec![AgentState::Failed], "gone"));
    let mut a = agent(None);
    a.advance(Event::Ready);
    a.advance(answer(CODE));
    let t = a.advance(Event::WriteFailed { error: error() });
    assert!(matches!(t.next, Command::Stop(Ending::NotWritten)));
    assert_eq!((states(&t), t.saves[0].last_error.as_str()), (vec![AgentState::Failed], "gone"));
    let mut a = agent(None);
    a.advance(Event::Ready);
    a.advance(answer(CODE));
    a.advance(Event::Written { path: "x".to_string() });
    let t = a.advance(Event::CheckFailed { error: error() });
    assert!(matches!(t.next, Command::Stop(Ending::NotChecked)));
    assert_eq!((states(&t), t.saves[0].last_error.as_str()), (vec![AgentState::Failed], "gone"));
    let mut a = agent(None);
    up_to_run(&mut a);
    let t = a.advance(Event::ExecutionFailed { error: error() });
    assert!(matches!(t.next, Command::Stop(Ending::NotRun)));
    assert_eq!((states(&t), t.saves[0].last_error.as_str()), (vec![AgentState::Failed], "gone"));
    let mut a = agent(None);
    up_to_run(&mut a);
    let t = a.advance(Event::RecompileFailed);
    assert!(matches!(t.next, Command::Stop(Ending::NotRecompiled)));
    assert!(t.saves.is_empty());
}

#[test]
fn attempts_are_bounded() {
    assert_eq!(MAX_ATTEMPTS, 5);
    for (attempts, resumed, expected) in
        [(0, false, 5), (3, false, 2), (3, true, 3), (5, false, 0), (5, true, 0), (9, true, 0)]
    {
        let mut a = Agent::new("t".to_string(), None, "p".to_string(), attempts, resumed);
        let mut asked = 0;
        loop {
            let t = a.advance(Event::Ready);
            match t.next {
                Command::Generate { .. } => asked += 1,
                Command::Stop(ending) => {
                    assert_eq!(ending, Ending::Exhausted);
                    assert_eq!(t.wipes, asked > 0);
                    assert!(t.saves.is_empty());
                    break;
                }
                other => panic!("{:?}", other),
            }
            a.advance(Event::Replied { answer: String::new() });
        }
        assert_eq!(asked, expected);
        assert_eq!(a.stage(), Stage::Over);
    }
}

#[test]
fn checkpoint_of_an_untried_task_stays() {
    let mut a = Agent::new("t".to_string(), None, "p".to_string(), 5, true);
    let t = a.advance(Event::Ready);
    assert!(matches!(t.next, Command::Stop(Ending::Exhausted)));
    assert!(!t.wipes && t.saves.is_empty());
}

#[test]
fn code_stays_in_the_project() {
    for (hint, relative) in [
        (".//etc/passwd", Some("etc/passwd")),
        ("src/../a.rs", Some("src/../a.rs")),
        ("../x.rs", None),
    ] {
        let mut a = agent(Some("/ws"));
        a.advance(Event::Ready);
        match a.advance(answer(&format!("// TARGET_FILE: {}", hint))).next {
            Command::Write { target: Target::Workspace { root, relative: r }, .. } => {
                assert_eq!(root, "/ws");
                assert_eq!(Some(r.as_str()), relative);
            }
            Command::Write { target: Target::Scratchpad, .. } => assert_eq!(relative, None),
            other => panic!("{:?}", other),
        }
    }
}

#[test]
fn resumed_attempt_keeps_its_number() {
    let mut a = Agent::new("t".to_string(), None, "p".to_string(), 2, true);
    let t = a.advance(Event::Ready);
    assert_eq!(t.saves[0].attempt, 2);
    a.advance(Event::Replied { answer: String::new() });
    let t = a.advance(Event::Ready);
    assert_eq!(t.saves[0].attempt, 3);
}

#[test]
fn unawaited_events_are_ignored() {
    let mut a = agent(None);
    let t = a.advance(answer(CODE));
    assert!(matches!(t.next, Command::Ignore));
    assert!(t.saves.is_empty() && !t.wipes);
    assert_eq!(a.stage(), Stage::Ready);
    up_to_run(&mut a);
    a.advance(ran("", false, false));
    assert!(matches!(a.advance(Event::Ready).next, Command::Ignore));
    assert_eq!(a.stage(), Stage::Over);
}
