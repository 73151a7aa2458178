use miller::workspace::{extract_target_file_hint, map_target, Target, TARGET_FILE};

fn mapped(root: Option<&str>, hint: Option<&str>) -> Option<(String, String)> {
    match map_target(root, hint) {
        Target::Workspace { root, relative } => Some((root, relative)),
        Target::Scratchpad => None,
    }
}

#[test]
fn hint_is_extracted() {
    assert_eq!(
        extract_target_file_hint("Sure.\n```rust\n  // TARGET_FILE:  src/some_module.rs \r\nfn a() {}\n```"),
        Some("src/some_module.rs".to_string())
    );
}

#[test]
fn first_hint_is_taken_and_empty_ones_are_passed_over() {
    assert_eq!(
        extract_target_file_hint("// TARGET_FILE:   \n// TARGET_FILE:a.rs\n// TARGET_FILE: b.rs"),
        Some("a.rs".to_string())
    );
}

#[test]
fn answers_without_a_hint_have_none() {
    assert_eq!(extract_target_file_hint(""), None);
    assert_eq!(extract_target_file_hint("x // TARGET_FILE: a.rs"), None);
    assert_eq!(extract_target_file_hint("// target_file: a.rs"), None);
}

#[test]
fn scratchpad_is_the_fallback() {
    assert_eq!(TARGET_FILE, "sandbox.rs");
    assert_eq!(mapped(None, None), None);
    assert_eq!(mapped(Some("/p"), None), None);
    assert_eq!(mapped(None, Some("a.rs")), None);
}

#[test]
fn hints_are_made_relative() {
    for (hint, relative) in [
        ("src/a.rs", "src/a.rs"),
        ("/etc/passwd", "etc/passwd"),
        (".//etc/passwd", "etc/passwd"),
        ("///a", "a"),
        ("./a", "a"),
        ("/././a", "a"),
        (".//a", "a"),
        ("/.//./a", "a"),
        (".hidden", ".hidden"),
        ("..a/b", "..a/b"),
        (".../b", ".../b"),
        ("a/./b", "a/./b"),
        ("a/../b", "a/../b"),
        ("a//../b", "a//../b"),
        ("", ""),
        ("/", ""),
    ] {
        assert_eq!(
            mapped(Some("/p"), Some(hint)),
            Some(("/p".to_string(), relative.to_string())),
            "{}",
            hint
        );
    }
}

#[test]
fn hints_that_lead_out_of_the_project_are_turned_down() {
    for hint in [
        "..", "../a", "../x.rs", "./../a", "/../a", ".//../a", "a/../../b", "a/.././../b", "a/b/../../..",
        "a//../../b",
    ] {
        assert_eq!(mapped(Some("/p"), Some(hint)), None, "{}", hint);
    }
}

#[test]
fn hints_that_come_back_to_the_project_are_followed() {
    for (root, hint, relative) in [
        ("/ws", "../ws/a.rs", "a.rs"),
        ("/ws", "/../ws/src//a.rs", "src//a.rs"),
        ("/ws", "../ws//a.rs", "a.rs"),
        ("/ws/", "../../ws/a.rs", "a.rs"),
        ("/p/ws", "../../p/./ws/a.rs", "a.rs"),
        ("/p/ws", "../x/../ws/a.rs", "a.rs"),
        ("/p/../ws", "../ws/a.rs", "a.rs"),
        ("/ws", "a/../../ws/b", "b"),
        ("/ws", "../ws/../ws/b/", "b/"),
        ("/ws", "../ws", ""),
        ("/", "../a", "a"),
        ("ws", "../ws/a.rs", "a.rs"),
        ("./p/ws", "../ws/a.rs", "a.rs"),
        ("..", "a.rs", "a.rs"),
    ] {
        assert_eq!(
            mapped(Some(root), Some(hint)),
            Some((root.to_string(), relative.to_string())),
            "{} {}",
            root,
            hint
        );
    }
    for (root, hint) in [
        ("/ws", "../wsx/a.rs"),
        ("/ws", "../ws/../a.rs"),
        ("/p/ws", "../../ws/a.rs"),
        (".", "../ws/a.rs"),
        ("ws", "../../ws/a.rs"),
        ("..", "../a.rs"),
    ] {
        assert_eq!(mapped(Some(root), Some(hint)), None, "{} {}", root, hint);
    }
}
