use miller::ast_graph::{build_ast_graph, distinct_texts, node_of, nodes_of, Capture, CodeNode};

fn capture(name: &str, text: Option<&str>) -> Capture {
    Capture { name: name.to_string(), text: text.map(String::from) }
}

fn found(names: &[&str]) -> Vec<Vec<Option<String>>> {
    names.iter().map(|n| vec![Some(n.to_string())]).collect()
}

fn summary(node: &CodeNode) -> (String, String, String) {
    (node.entity_type.clone(), node.entity_name.clone(), node.dependencies.join(","))
}

#[test]
fn functions_and_structs_are_found() {
    let source = "struct Point { x: i32 }\n\n\
                  fn helper() {}\n\n\
                  fn main() {\n    helper();\n    other(helper());\n    p.method();\n    \
                  std::mem::drop(1);\n}\n";
    let nodes = build_ast_graph("src/main.rs", source).unwrap();
    let seen: Vec<(String, String, String)> = nodes.iter().map(summary).collect();
    assert_eq!(
        seen,
        vec![
            ("struct".to_string(), "Point".to_string(), String::new()),
            ("function".to_string(), "helper".to_string(), String::new()),
            ("function".to_string(), "main".to_string(), "helper,other".to_string()),
        ]
    );
    assert_eq!(nodes[0].content, "struct Point { x: i32 }");
    assert_eq!(nodes[1].content, "fn helper() {}");
    assert!(nodes[2].content.starts_with("fn main() {"));
    assert!(nodes[2].content.ends_with('}'));
    assert!(nodes.iter().all(|n| n.file_path == "src/main.rs"));
}

#[test]
fn methods_are_functions_too() {
    let source = "struct S;\nimpl S {\n    fn é(&self) -> u8 { ü(1) }\n}\n";
    let nodes = build_ast_graph("a.rs", source).unwrap();
    let seen: Vec<(String, String, String)> = nodes.iter().map(summary).collect();
    assert_eq!(
        seen,
        vec![
            ("struct".to_string(), "S".to_string(), String::new()),
            ("function".to_string(), "é".to_string(), "ü".to_string()),
        ]
    );
    assert_eq!(nodes[1].content, "fn é(&self) -> u8 { ü(1) }");
}

#[test]
fn source_without_entities_has_no_nodes() {
    assert!(build_ast_graph("a.rs", "").unwrap().is_empty());
    assert!(build_ast_graph("a.rs", "use std::fmt;\nconst A: u8 = 1;").unwrap().is_empty());
    assert!(build_ast_graph("a.rs", "this is ( no Rust").unwrap().is_empty());
}

#[test]
fn dependencies_are_the_calls() {
    let calls = vec![
        Some("a".to_string()),
        Some("b".to_string()),
        None,
        Some("a".to_string()),
        Some(String::new()),
    ];
    assert_eq!(distinct_texts(&calls), vec!["a", "b", ""]);
    assert!(distinct_texts(&vec![]).is_empty());
}

#[test]
fn only_functions_depend() {
    let calls = vec![found(&["x"]), found(&["y"])];
    let function = vec![capture("fn.body", Some("fn f() {}")), capture("fn.name", Some("f"))];
    let node = node_of("p", &function, &calls);
    assert_eq!(summary(&node), ("function".to_string(), "f".to_string(), "x".to_string()));
    assert_eq!(node.content, "fn f() {}");
    let structure = vec![capture("struct.body", Some("struct S;")), capture("struct.name", Some("S"))];
    let node = node_of("p", &structure, &calls);
    assert_eq!(summary(&node), ("struct".to_string(), "S".to_string(), String::new()));
    let other = vec![capture("comment", Some("// c"))];
    let node = node_of("p", &other, &calls);
    assert_eq!(summary(&node), ("unknown".to_string(), String::new(), String::new()));
    let unreadable = vec![capture("fn.name", None)];
    let node = node_of("p", &unreadable, &calls);
    assert_eq!(summary(&node), ("function".to_string(), String::new(), String::new()));
}

#[test]
fn matches_without_calls_have_no_dependencies() {
    let matches = vec![
        vec![capture("fn.body", Some("fn f() {}")), capture("fn.name", Some("f"))],
        vec![capture("fn.body", Some("fn g() {}")), capture("fn.name", Some("g"))],
    ];
    let calls = vec![vec![found(&["g", "h", "g"])]];
    let nodes = nodes_of("p", &matches, &calls);
    assert_eq!(nodes.len(), 2);
    assert_eq!(nodes[0].dependencies, vec!["g", "h"]);
    assert!(nodes[1].dependencies.is_empty());
}

#[test]
fn nodes_can_be_copied() {
    for node in build_ast_graph("a.rs", "struct S;\nfn f() { g(); h(); }").unwrap() {
        assert_eq!(format!("{:?}", node.clone()), format!("{:?}", node));
    }
}
