use miller::sandbox::{
    compile_report, monitoring_failure, spawn_failure, Directive, ExecutionMonitor, Observation,
    Probe, SandboxMetrics, CHUNK_SIZE, MAX_BUFFER_SIZE, TICK_MS, TIME_LIMIT_MS,
};

fn run_one_round(m: &mut ExecutionMonitor, millis: u128, out: Vec<u8>, err: Vec<u8>) -> Directive {
    assert_eq!(m.observe(Observation::Running), Directive::Ask(Probe::Clock));
    let d = m.observe(Observation::Elapsed { millis });
    if d != Directive::Ask(Probe::Stdout) {
        return d;
    }
    let d = m.observe(Observation::StdoutChunk { bytes: out });
    if d != Directive::Ask(Probe::Stderr) {
        return d;
    }
    let d = m.observe(Observation::StderrChunk { bytes: err });
    if d != Directive::Ask(Probe::Tick) {
        return d;
    }
    m.observe(Observation::Rested)
}

#[test]
fn metrics_start_at_nothing() {
    let m = SandboxMetrics::default();
    assert_eq!(m.execution_duration_ms, 0);
    assert_eq!((m.stdout_size, m.stderr_size, m.exit_code), (0, 0, None));
}

#[test]
fn limits_of_the_sandbox() {
    assert_eq!(MAX_BUFFER_SIZE, 1024 * 1024);
    assert_eq!(TIME_LIMIT_MS, 3000);
    assert_eq!(TICK_MS, 20);
    assert_eq!(CHUNK_SIZE, 4096);
}

#[test]
fn compile_output_is_decoded() {
    assert_eq!(compile_report(true, &vec![]), (true, String::new()));
    assert_eq!(compile_report(false, &"é!".as_bytes().to_vec()), (false, "é!".to_string()));
    assert_eq!(
        compile_report(false, &vec![b'a', 0xff, b'b']),
        (false, "a\u{fffd}b".to_string())
    );
}

#[test]
fn container_failures_are_reported() {
    assert_eq!(spawn_failure("gone"), "Failed to spawn sandbox container: gone");
    assert_eq!(monitoring_failure("gone"), "Sandbox monitoring error: gone");
}

#[test]
fn program_that_ends_by_itself_is_reported() {
    let mut m = ExecutionMonitor::new();
    let d = run_one_round(&mut m, 5, b"one ".to_vec(), b"".to_vec());
    assert_eq!(d, Directive::Ask(Probe::Status));
    let d = m.observe(Observation::Exited {
        exit_code: Some(0),
        stdout_rest: b"two".to_vec(),
        stderr_rest: b"oops".to_vec(),
    });
    assert_eq!(d, Directive::Stop);
    let r = m.finish(42);
    assert_eq!(r.stdout, "one two");
    assert_eq!(r.stderr, "oops");
    assert!(!r.timed_out && !r.limit_exceeded);
    assert_eq!(r.metrics.execution_duration_ms, 42);
    assert_eq!(r.metrics.stdout_size, 7);
    assert_eq!(r.metrics.stderr_size, 4);
    assert_eq!(r.metrics.exit_code, Some(0));
}

#[test]
fn program_is_killed_at_the_time_limit() {
    let mut m = ExecutionMonitor::new();
    assert_eq!(
        run_one_round(&mut m, 2999, b"x".to_vec(), b"y".to_vec()),
        Directive::Ask(Probe::Status)
    );
    assert_eq!(run_one_round(&mut m, 3000, vec![], vec![]), Directive::Kill);
    assert_eq!(m.observe(Observation::Running), Directive::Stop);
    let r = m.finish(3001);
    assert!(r.timed_out && !r.limit_exceeded);
    assert_eq!(r.stdout, "x");
    assert_eq!(r.stderr, "y");
    assert_eq!(r.metrics.exit_code, None);
}

#[test]
fn program_is_killed_at_the_output_limit() {
    let alert = "\n[SECURITY ALERT] HOST PIPE BOMB BLOCKED: Execution terminated. \
                 Stdout/Stderr threshold of 1 MB breached.";
    let mut m = ExecutionMonitor::new();
    let mut rounds = 0;
    loop {
        let d = run_one_round(&mut m, 1, vec![b'a'; CHUNK_SIZE], vec![]);
        rounds += 1;
        if d == Directive::Kill {
            break;
        }
        assert_eq!(d, Directive::Ask(Probe::Status));
    }
    assert_eq!(rounds, MAX_BUFFER_SIZE / CHUNK_SIZE);
    let r = m.finish(9);
    assert!(r.limit_exceeded && !r.timed_out);
    assert_eq!(r.stdout.len(), MAX_BUFFER_SIZE);
    assert_eq!(r.stderr, alert);
    let mut m = ExecutionMonitor::new();
    assert_eq!(
        run_one_round(&mut m, 1, vec![], vec![b'e'; MAX_BUFFER_SIZE]),
        Directive::Kill
    );
    let r = m.finish(9);
    assert!(r.limit_exceeded);
    assert_eq!(r.stderr, format!("{}{}", "e".repeat(MAX_BUFFER_SIZE), alert));
    assert_eq!(r.metrics.stderr_size, MAX_BUFFER_SIZE);
}

#[test]
fn captured_output_is_capped() {
    let mut m = ExecutionMonitor::new();
    m.observe(Observation::Exited {
        exit_code: Some(1),
        stdout_rest: vec![b'a'; MAX_BUFFER_SIZE + 5],
        stderr_rest: vec![],
    });
    let r = m.finish(1);
    assert_eq!(r.metrics.stdout_size, MAX_BUFFER_SIZE);
    assert_eq!(r.stdout.len(), MAX_BUFFER_SIZE);
    assert!(!r.limit_exceeded);
    assert_eq!(r.metrics.exit_code, Some(1));
    let mut m = ExecutionMonitor::new();
    assert_eq!(
        run_one_round(&mut m, 1, vec![b'a'; MAX_BUFFER_SIZE - 1], vec![]),
        Directive::Ask(Probe::Status)
    );
    assert_eq!(run_one_round(&mut m, 1, vec![b'b'; 9], vec![]), Directive::Kill);
    let r = m.finish(1);
    assert!(r.limit_exceeded);
    assert_eq!(r.metrics.stdout_size, MAX_BUFFER_SIZE);
    assert_eq!(r.stdout.len(), MAX_BUFFER_SIZE);
    assert!(r.stdout.ends_with("ab"));
}

#[test]
fn unasked_observations_change_nothing() {
    let mut m = ExecutionMonitor::new();
    assert_eq!(m.observe(Observation::Elapsed { millis: 9999 }), Directive::Ask(Probe::Status));
    assert_eq!(
        m.observe(Observation::StdoutChunk { bytes: vec![1] }),
        Directive::Ask(Probe::Status)
    );
    let d = m.observe(Observation::Exited { exit_code: None, stdout_rest: vec![], stderr_rest: vec![] });
    assert_eq!(d, Directive::Stop);
    let d = m.observe(Observation::Exited {
        exit_code: Some(7),
        stdout_rest: vec![b'z'],
        stderr_rest: vec![],
    });
    assert_eq!(d, Directive::Stop);
    let r = m.finish(0);
    assert_eq!(r.stdout, "");
    assert_eq!(r.metrics.exit_code, None);
    assert!(!r.timed_out);
}
