use miller::compiler::{
    compile_container_args, extract_clean_error, get_unique_job_dir, job_dir_for,
    plan_compile, plan_run, run_container_args, Cleanup, CleanupStep, CompilePlan, Language, RuntimeConfig,
    CLEANUP_ATTEMPTS, CLEANUP_PAUSE_MS, MAX_ERROR_LINES, WORKSPACE,
};

fn strings(parts: &[&str]) -> Vec<String> {
    parts.iter().map(|p| p.to_string()).collect()
}

#[test]
fn runtimes_of_the_languages() {
    let rust = RuntimeConfig::for_language(&Language::Rust);
    assert_eq!(rust.image_name, "miller-rust-runner");
    assert_eq!(rust.compile_args, Some(vec!["rustc", "{INPUT}", "-o", "{OUTPUT}"]));
    assert_eq!(rust.run_args, vec!["{BINARY}"]);
    assert_eq!(rust.source_extension, "rs");
    assert!(!rust.is_interpreted());
    let python = RuntimeConfig::for_language(&Language::Python);
    assert_eq!(python.image_name, "miller-python-runner");
    assert_eq!(python.compile_args, None);
    assert_eq!(python.run_args, vec!["python3", "{INPUT}"]);
    assert_eq!(python.source_extension, "py");
    assert!(python.is_interpreted());
}

#[test]
fn placeholders_are_resolved() {
    let rust = RuntimeConfig::for_language(&Language::Rust);
    assert_eq!(
        rust.resolved_compile_args("/tmp/j"),
        Some(strings(&["rustc", "/tmp/j/main.rs", "-o", "/tmp/j/app"]))
    );
    assert_eq!(rust.resolved_run_args("/tmp/j"), strings(&["/tmp/j/app"]));
    assert_eq!(
        rust.resolved_compile_args(WORKSPACE),
        Some(strings(&["rustc", "/workspace/main.rs", "-o", "/workspace/app"]))
    );
    let python = RuntimeConfig::for_language(&Language::Python);
    assert_eq!(python.resolved_compile_args("/tmp/j"), None);
    assert_eq!(python.resolved_run_args("/tmp/j"), strings(&["python3", "/tmp/j/main.py"]));
}

#[test]
fn binary_of_an_interpreted_language_is_its_source() {
    let config = RuntimeConfig {
        image_name: "image",
        compile_args: Some(vec![]),
        run_args: vec!["node", "{BINARY}", "--from={INPUT}{INPUT}"],
        source_extension: "js",
    };
    assert!(config.is_interpreted());
    assert_eq!(
        config.resolved_run_args("/d"),
        strings(&["node", "/d/main.js", "--from=/d/main.js/d/main.js"])
    );
    assert_eq!(config.resolved_compile_args("/d"), Some(vec![]));
}

#[test]
fn no_placeholder_is_left() {
    let config = RuntimeConfig {
        image_name: "image",
        compile_args: Some(vec!["{{INPUT}}", "{OUTPUT}{INPUT}{OUTPUT}", "{IN{INPUT}PUT}"]),
        run_args: vec!["{INPUT}{BINARY}", "{BINARY{INPUT}}"],
        source_extension: "c",
    };
    let rust = RuntimeConfig::for_language(&Language::Rust);
    let python = RuntimeConfig::for_language(&Language::Python);
    for (config, dir) in
        [(&config, "/d"), (&config, "/d}UT}"), (&rust, "UT}"), (&rust, "}"), (&python, "PUT}/}")]
    {
        for arg in config.resolved_compile_args(dir).unwrap_or_default() {
            assert!(!arg.contains("{INPUT}") && !arg.contains("{OUTPUT}"), "{}", arg);
        }
        for arg in config.resolved_run_args(dir) {
            assert!(!arg.contains("{INPUT}") && !arg.contains("{BINARY}"), "{}", arg);
        }
    }
}

#[test]
fn job_directories_are_named_by_the_clock() {
    assert_eq!(job_dir_for(0), "/tmp/miller_job_0");
    assert_eq!(job_dir_for(1_700_000_000_123_456_789), "/tmp/miller_job_1700000000123456789");
    assert_ne!(job_dir_for(1), job_dir_for(10));
    let now = get_unique_job_dir();
    let digits = now.strip_prefix("/tmp/miller_job_").unwrap();
    assert!(digits.parse::<u128>().unwrap() > 1_600_000_000_000_000_000);
}

#[test]
fn removal_is_tried_three_times() {
    assert_eq!(CLEANUP_ATTEMPTS, 3);
    assert_eq!(CLEANUP_PAUSE_MS, 100);
    let mut cleanup = Cleanup::new();
    assert_eq!(cleanup.after(true), CleanupStep::Done);
    let mut cleanup = Cleanup::new();
    assert_eq!(cleanup.after(false), CleanupStep::RetryAfter { millis: 100 });
    assert_eq!(cleanup.after(false), CleanupStep::RetryAfter { millis: 100 });
    assert_eq!(cleanup.after(true), CleanupStep::Done);
    let mut cleanup = Cleanup::new();
    assert_eq!(cleanup.after(false), CleanupStep::RetryAfter { millis: 100 });
    assert_eq!(cleanup.after(false), CleanupStep::RetryAfter { millis: 100 });
    assert_eq!(cleanup.after(false), CleanupStep::GiveUpAfter { millis: 100 });
}

#[test]
fn projects_are_checked_and_run_by_language() {
    assert_eq!(
        RuntimeConfig::workspace_check_args(&Language::Rust),
        vec!["cargo", "check", "--manifest-path", "/workspace/Cargo.toml"]
    );
    assert_eq!(
        RuntimeConfig::workspace_run_args(&Language::Rust),
        vec!["cargo", "run", "--quiet", "--manifest-path", "/workspace/Cargo.toml"]
    );
    assert_eq!(
        RuntimeConfig::workspace_check_args(&Language::Python),
        vec!["python3", "-m", "compileall", "-q", "/workspace"]
    );
    assert_eq!(
        RuntimeConfig::workspace_run_args(&Language::Python),
        vec!["python3", "/workspace/main.py"]
    );
}

#[test]
fn compile_containers_are_confined() {
    assert_eq!(
        compile_container_args("/tmp/j", "image", strings(&["rustc", "a.rs"])),
        strings(&[
            "run", "--rm", "--network", "none", "--memory", "512m", "--cpus", "0.5",
            "--pids-limit", "100", "--cap-drop", "ALL", "--security-opt", "no-new-privileges",
            "-v", "/tmp/j:/workspace:rw", "image", "rustc", "a.rs",
        ])
    );
}

#[test]
fn run_containers_are_confined() {
    assert_eq!(
        run_container_args("/tmp/j", "image", strings(&["./app"])),
        strings(&[
            "run", "--rm", "--init", "--network", "none", "--memory", "256m", "--cpus", "0.5",
            "--pids-limit", "64", "--cap-drop", "ALL", "--security-opt", "no-new-privileges",
            "--read-only", "--tmpfs", "/tmp:rw,noexec,nosuid,size=64m", "-v",
            "/tmp/j:/workspace:rw", "image", "./app",
        ])
    );
}

#[test]
fn missing_source_is_reported() {
    for language in [Language::Rust, Language::Python] {
        let config = RuntimeConfig::for_language(&language);
        match plan_compile("/tmp/j", &config, "sandbox.rs", false) {
            CompilePlan::MissingSource { report } => {
                assert_eq!(report, "sandbox.rs missing on host cache")
            }
            other => panic!("{:?}", other),
        }
    }
}

#[test]
fn interpreted_source_is_only_copied() {
    let config = RuntimeConfig::for_language(&Language::Python);
    match plan_compile("/tmp/j", &config, "sandbox.rs", true) {
        CompilePlan::CopyOnly { destination } => assert_eq!(destination, "/tmp/j/main.py"),
        other => panic!("{:?}", other),
    }
}

#[test]
fn compiled_source_is_copied_and_compiled() {
    let config = RuntimeConfig::for_language(&Language::Rust);
    match plan_compile("/tmp/j", &config, "sandbox.rs", true) {
        CompilePlan::CopyAndCompile { destination, container_args } => {
            assert_eq!(destination, "/tmp/j/main.rs");
            assert_eq!(
                container_args,
                compile_container_args(
                    "/tmp/j",
                    "miller-rust-runner",
                    strings(&["rustc", "/workspace/main.rs", "-o", "/workspace/app"])
                )
            );
        }
        other => panic!("{:?}", other),
    }
    assert_eq!(
        plan_run("/tmp/j", &config),
        run_container_args("/tmp/j", "miller-rust-runner", strings(&["/workspace/app"]))
    );
    assert_eq!(
        plan_run("/tmp/j", &RuntimeConfig::for_language(&Language::Python)),
        run_container_args(
            "/tmp/j",
            "miller-python-runner",
            strings(&["python3", "/workspace/main.py"])
        )
    );
}

#[test]
fn actionable_lines_are_kept() {
    let raw = "error[E0425]: cannot find value `x`\n --> main.rs:2:5\n  |\n2 |     x\n  |     ^\n\n\
               note: nothing\nhelp: did you mean `y`?\nFor more information";
    assert_eq!(
        extract_clean_error(raw),
        "error[E0425]: cannot find value `x`\n --> main.rs:2:5\n  |\n2 |     x\n  |     ^\nhelp: did you mean `y`?"
    );
    assert_eq!(extract_clean_error(""), "");
    assert_eq!(extract_clean_error("all is well\n"), "");
}

#[test]
fn no_more_than_so_many_lines_are_kept() {
    let raw: String = (0..60).map(|i| format!("error {}\nnoise\n", i)).collect();
    let clean = extract_clean_error(&raw);
    let kept: Vec<&str> = clean.lines().collect();
    assert_eq!(MAX_ERROR_LINES, 25);
    assert_eq!(kept.len(), 25);
    assert_eq!(kept[0], "error 0");
    assert_eq!(kept[24], "error 24");
    assert_eq!(extract_clean_error(&clean), clean);
}
