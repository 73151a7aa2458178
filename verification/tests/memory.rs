use miller::http::{Method, RequestBody, Value};
use miller::json::Json;
use miller::memory::{
    after_check, check_request, creation_outcome, search_failure, search_request, search_results,
    upsert_outcome, upsert_request, Bootstrap, MemoryPayload, COLLECTION_NAME, QDRANT_URL,
    REQUEST_TIMEOUT_SECS, VECTOR_DIMENSION,
};

const COLLECTION: &str = "http://localhost:6333/collections/miller_codebase";

fn text(s: &str) -> Json {
    Json::Text(s.to_string())
}

fn number(x: f64) -> Json {
    Json::Number { double: x.to_bits(), single: (x as f32).to_bits() }
}

fn object(fields: Vec<(&str, Json)>) -> Json {
    Json::Fields(fields.into_iter().map(|(k, v)| (k.to_string(), v)).collect())
}

fn payload(path: &str) -> Json {
    object(vec![
        ("content", text("fn a() {}")),
        ("entity_name", text("a")),
        ("entity_type", text("function")),
        ("extra", Json::Bool(true)),
        ("file_path", text(path)),
    ])
}

fn keys(value: &Value) -> Vec<String> {
    match value {
        Value::Fields(fields) => fields.iter().map(|f| f.0.clone()).collect(),
        other => panic!("{:?}", other),
    }
}

fn member(value: &Value, i: usize) -> &Value {
    match value {
        Value::Fields(fields) => &fields[i].1,
        other => panic!("{:?}", other),
    }
}

/// A value that was sent, as it is read back.
fn echoed(value: &Value) -> Json {
    match value {
        Value::Bool(b) => Json::Bool(*b),
        Value::Integer(n) => number(*n as f64),
        Value::Double(bits) => number(f64::from_bits(*bits)),
        Value::Text(s) => text(s),
        Value::List(items) => Json::List(items.iter().map(echoed).collect()),
        Value::Fields(fields) => {
            Json::Fields(fields.iter().map(|(k, v)| (k.clone(), echoed(v))).collect())
        }
    }
}

#[test]
fn settings_of_the_database() {
    assert_eq!(QDRANT_URL, "http://localhost:6333");
    assert_eq!(COLLECTION_NAME, "miller_codebase");
    assert_eq!(VECTOR_DIMENSION, 384);
    assert_eq!(REQUEST_TIMEOUT_SECS, 10);
}

#[test]
fn collection_is_created_only_where_it_is_missing() {
    let check = check_request();
    assert_eq!(check.method, Method::Get);
    assert_eq!(check.url, COLLECTION);
    assert!(check.body.layout().is_none());
    assert!(matches!(after_check(Some(true)), Bootstrap::AlreadyActive));
    for reply in [Some(false), None] {
        match after_check(reply) {
            Bootstrap::Create(request) => {
                assert_eq!(request.method, Method::Put);
                assert_eq!(request.url, COLLECTION);
                let sent = request.body.layout().unwrap();
                assert_eq!(keys(&sent), vec!["vectors"]);
                assert_eq!(keys(member(&sent, 0)), vec!["size", "distance"]);
                assert!(matches!(member(member(&sent, 0), 0), Value::Integer(384)));
                assert!(matches!(member(member(&sent, 0), 1), Value::Text(t) if t == "Cosine"));
            }
            other => panic!("{:?}", other),
        }
    }
}

#[test]
fn creation_and_insertion_report_failures() {
    assert_eq!(creation_outcome(true, "x"), Ok(()));
    assert_eq!(creation_outcome(false, "x"), Err("Failed to create collection: x".to_string()));
    assert_eq!(upsert_outcome(7, true, "x"), Ok(()));
    assert_eq!(upsert_outcome(7, false, "x"), Err("Failed to upsert point 7: x".to_string()));
    assert_eq!(search_failure("x"), "Search failed: x");
}

#[test]
fn points_are_inserted() {
    let p = MemoryPayload {
        file_path: "p".to_string(),
        entity_name: "n".to_string(),
        entity_type: "struct".to_string(),
        content: "c".to_string(),
    };
    let vector = vec![0.25_f64.to_bits(), 1.0_f64.to_bits()];
    let r = upsert_request(9, vector.clone(), p.clone());
    assert_eq!(r.method, Method::Put);
    assert_eq!(r.url, format!("{}/points", COLLECTION));
    let sent = r.body.layout().unwrap();
    assert_eq!(keys(&sent), vec!["points"]);
    let point = match member(&sent, 0) {
        Value::List(points) => {
            assert_eq!(points.len(), 1);
            &points[0]
        }
        other => panic!("{:?}", other),
    };
    assert_eq!(keys(point), vec!["id", "vector", "payload"]);
    assert!(matches!(member(point, 0), Value::Integer(9)));
    match member(point, 1) {
        Value::List(items) => {
            assert_eq!(items.len(), 2);
            assert!(matches!(items[0], Value::Double(b) if b == vector[0]));
            assert!(matches!(items[1], Value::Double(b) if b == vector[1]));
        }
        other => panic!("{:?}", other),
    }
    let sent_payload = member(point, 2);
    assert_eq!(keys(sent_payload), vec!["file_path", "entity_name", "entity_type", "content"]);
    let read = MemoryPayload::from_json(&echoed(sent_payload)).unwrap();
    assert_eq!(format!("{:?}", read), format!("{:?}", p));
    let mut fields = match echoed(sent_payload) {
        Json::Fields(fields) => fields,
        other => panic!("{:?}", other),
    };
    fields.reverse();
    let read = MemoryPayload::from_json(&Json::Fields(fields)).unwrap();
    assert_eq!(format!("{:?}", read), format!("{:?}", p));
}

#[test]
fn searches_are_requested() {
    let r = search_request(vec![3], 2);
    assert_eq!(r.method, Method::Post);
    assert_eq!(r.url, format!("{}/points/search", COLLECTION));
    assert!(matches!(
        &r.body,
        RequestBody::SearchPoints { vector, limit: 2, with_payload: true } if *vector == vec![3]
    ));
    let sent = r.body.layout().unwrap();
    assert_eq!(keys(&sent), vec!["vector", "limit", "with_payload"]);
    assert!(matches!(member(&sent, 1), Value::Integer(2)));
    assert!(matches!(member(&sent, 2), Value::Bool(true)));
}

#[test]
fn payloads_are_read() {
    let p = MemoryPayload::from_json(&payload("src/a.rs")).unwrap();
    assert_eq!(p.file_path, "src/a.rs");
    assert_eq!(p.entity_name, "a");
    assert_eq!(p.entity_type, "function");
    assert_eq!(p.content, "fn a() {}");
    assert_eq!(MemoryPayload::from_json(&Json::Null).err(), Some("file_path"));
    assert_eq!(
        MemoryPayload::from_json(&object(vec![("file_path", text("p"))])).err(),
        Some("entity_name")
    );
    let two = object(vec![("file_path", text("p")), ("entity_name", text("n"))]);
    assert_eq!(MemoryPayload::from_json(&two).err(), Some("entity_type"));
    let three = object(vec![
        ("entity_type", text("t")),
        ("file_path", text("p")),
        ("entity_name", text("n")),
    ]);
    assert_eq!(MemoryPayload::from_json(&three).err(), Some("content"));
    let wrong = object(vec![
        ("file_path", number(1.0)),
        ("entity_name", text("a")),
        ("entity_type", text("b")),
        ("content", text("c")),
    ]);
    assert_eq!(MemoryPayload::from_json(&wrong).err(), Some("file_path"));
}

#[test]
fn search_results_are_read() {
    let reply = object(vec![(
        "result",
        Json::List(vec![
            object(vec![("score", number(0.75)), ("payload", payload("one"))]),
            object(vec![("score", number(0.7)), ("payload", object(vec![]))]),
            object(vec![("score", number(0.6)), ("payload", Json::Null)]),
            object(vec![("payload", payload("two"))]),
            Json::Null,
        ]),
    )]);
    let r = search_results(&reply);
    assert_eq!(r.skipped, vec!["file_path"]);
    assert_eq!(r.chunks.len(), 2);
    assert_eq!(f32::from_bits(r.chunks[0].score_bits), 0.75);
    assert_eq!(r.chunks[0].payload.file_path, "one");
    assert_eq!(f32::from_bits(r.chunks[1].score_bits), 0.0);
    assert_eq!(r.chunks[1].payload.file_path, "two");
    assert_eq!(format!("{:?}", r.chunks[0].clone()), format!("{:?}", r.chunks[0]));
}

#[test]
fn reply_without_results_has_none() {
    for reply in [Json::Null, object(vec![]), object(vec![("result", Json::Bool(false))])] {
        let r = search_results(&reply);
        assert!(r.chunks.is_empty());
        assert!(r.skipped.is_empty());
    }
}

#[test]
fn first_field_of_a_name_counts() {
    let value = object(vec![("a", text("1")), ("a", text("2")), ("b", Json::List(vec![]))]);
    assert_eq!(value.get_text("a").map(|t| t.as_str()), Some("1"));
    assert!(value.get_text("b").is_none());
    assert!(value.get_list("b").is_some());
    assert!(value.get_list("a").is_none());
    assert!(value.get("c").is_none());
    assert!(Json::Null.get("a").is_none());
}
