use miller::security::{blocked_patterns, is_safe, sanitize_code};

#[test]
fn fenced_code_is_recovered() {
    let code = "fn main() {\n    println!(\"hi\");\n}";
    let reply = format!("Sure! ```json {{}}``` no.\n```rust\n{}\n```\nDone. ```rust\nother\n```", code);
    assert_eq!(sanitize_code(&reply), Some(code.to_string()));
}

#[test]
fn unmarked_fence_is_taken_where_none_is_marked() {
    assert_eq!(sanitize_code("x ```\nlet a = 1;\n``` y"), Some("let a = 1;".to_string()));
    assert_eq!(sanitize_code("```python\nprint(1)\n```"), Some("python\nprint(1)".to_string()));
}

#[test]
fn fence_marked_as_rust_comes_first() {
    let reply = "```\nfirst\n```\n```rust\nsecond\n```";
    assert_eq!(sanitize_code(reply), Some("second".to_string()));
}

#[test]
fn unclosed_rust_fence_is_not_code() {
    assert_eq!(sanitize_code("```rust\nfn main() {}"), None);
    assert_eq!(sanitize_code("a ``` b"), None);
}

#[test]
fn answers_without_a_fence_hold_no_code() {
    assert_eq!(sanitize_code(""), None);
    assert_eq!(sanitize_code("fn main() {}"), None);
}

#[test]
fn empty_fences_hold_no_code() {
    assert_eq!(sanitize_code("```rust   \r\n  ```"), None);
    assert_eq!(sanitize_code("``````"), None);
}

#[test]
fn line_ends_become_line_feeds() {
    assert_eq!(
        sanitize_code("```rust\r\nfn a() {}\r\nfn b() {}\r\n```"),
        Some("fn a() {}\nfn b() {}".to_string())
    );
}

#[test]
fn sanitized_code_has_no_white_space_around_it() {
    assert_eq!(sanitize_code("```rust\n\n\t x \n\n```"), Some("x".to_string()));
}

#[test]
fn blocked_texts_are_refused() {
    assert_eq!(
        blocked_patterns(),
        vec![
            "remove_dir_all",
            "std::fs::remove_dir",
            "Command::new",
            "std::process::Command",
            "unsafe",
            "std::net",
            "TcpStream",
            "TcpListener",
            "std::os::unix::fs",
        ]
    );
    for pattern in blocked_patterns() {
        assert!(!is_safe(pattern));
        assert!(!is_safe(&format!("fn main() {{ {} }}", pattern)));
        assert!(is_safe(&pattern[1..]) || pattern.starts_with("std::"));
    }
}

#[test]
fn other_code_is_safe() {
    assert!(is_safe(""));
    assert!(is_safe("fn main() { println!(\"{}\", 1 + 1); }"));
}

#[test]
fn parts_of_safe_code_are_safe() {
    let code = "fn main() { let safe = 1; }";
    assert!(is_safe(code));
    for i in 0..code.len() {
        for j in i..=code.len() {
            assert!(is_safe(&code[i..j]));
        }
    }
}
