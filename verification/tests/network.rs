use miller::http::{Method, RequestBody, Value};
use miller::json::Json;
use miller::network::{
    embedding_outcome, embedding_request, generation_request, Retry, RetryStep, TryOutcome,
    EMBED_MODEL, EMBED_URL, HTTP_POOL_IDLE_SECS, HTTP_TIMEOUT_SECS, MAX_EMBED_CHARS, MAX_RETRIES,
    MODEL_NAME, OLLAMA_URL, RETRY_PAUSE_SECS,
};

fn number(x: f64) -> Json {
    Json::Number { double: x.to_bits(), single: (x as f32).to_bits() }
}

fn object(key: &str, value: Json) -> Json {
    Json::Fields(vec![("other".to_string(), Json::Null), (key.to_string(), value)])
}

fn reply(text: &str) -> TryOutcome {
    TryOutcome::Reply(object("response", Json::Text(text.to_string())))
}

#[test]
fn settings_of_the_model_server() {
    assert_eq!(OLLAMA_URL, "http://localhost:11434/api/generate");
    assert_eq!(EMBED_URL, "http://localhost:11434/api/embeddings");
    assert_eq!(MODEL_NAME, "qwen2.5-coder:3b");
    assert_eq!(EMBED_MODEL, "all-minilm");
    assert_eq!((HTTP_TIMEOUT_SECS, HTTP_POOL_IDLE_SECS), (120, 30));
    assert_eq!((MAX_EMBED_CHARS, MAX_RETRIES, RETRY_PAUSE_SECS), (500, 3, 2));
}

#[test]
fn embedded_text_is_a_short_beginning() {
    for (text, sent) in [
        ("short".to_string(), "short".to_string()),
        ("é".repeat(500), "é".repeat(500)),
        ("é".repeat(501), "é".repeat(500)),
        ("a".repeat(900), "a".repeat(500)),
    ] {
        let r = embedding_request(&text);
        assert_eq!(r.method, Method::Post);
        assert_eq!(r.url, EMBED_URL);
        match r.body {
            RequestBody::Embed { model, prompt } => {
                assert_eq!(model, EMBED_MODEL);
                assert_eq!(prompt, sent);
            }
            other => panic!("{:?}", other),
        }
    }
}

#[test]
fn embedding_is_read_out_of_a_reply() {
    let items = vec![number(0.5), Json::Text("x".to_string()), number(-2.0)];
    assert_eq!(
        embedding_outcome(&object("embedding", Json::List(items))),
        Ok(vec![0.5_f64.to_bits(), 0.0_f64.to_bits(), (-2.0_f64).to_bits()])
    );
    assert_eq!(embedding_outcome(&object("embedding", Json::List(vec![]))), Ok(vec![]));
}

#[test]
fn reply_without_an_embedding_is_an_error() {
    let error = Err("Failed to extract valid embedding vectors from Ollama".to_string());
    assert_eq!(embedding_outcome(&Json::Null), error);
    assert_eq!(embedding_outcome(&object("error", Json::Text("e".to_string()))), error);
    assert_eq!(embedding_outcome(&object("embedding", Json::Bool(true))), error);
}

#[test]
fn generation_is_requested() {
    let r = generation_request("write");
    assert_eq!(r.method, Method::Post);
    assert_eq!(r.url, OLLAMA_URL);
    match r.body.layout() {
        Some(Value::Fields(fields)) => {
            let keys: Vec<&str> = fields.iter().map(|f| f.0.as_str()).collect();
            assert_eq!(keys, vec!["model", "prompt", "stream"]);
            assert!(matches!(&fields[0].1, Value::Text(t) if t == MODEL_NAME));
            assert!(matches!(&fields[1].1, Value::Text(t) if t == "write"));
            assert!(matches!(&fields[2].1, Value::Bool(false)));
        }
        other => panic!("{:?}", other),
    }
}

#[test]
fn generation_takes_the_first_text() {
    let mut retry = Retry::new();
    assert_eq!(retry.number(), 1);
    assert!(matches!(retry.after(&reply("code")), RetryStep::Done(t) if t == "code"));
    let mut retry = Retry::new();
    assert!(matches!(retry.after(&TryOutcome::Unreachable), RetryStep::TryAgainAfter { secs: 2 }));
    assert_eq!(retry.number(), 2);
    assert!(matches!(
        retry.after(&TryOutcome::Reply(object("error", Json::Null))),
        RetryStep::TryAgainAfter { secs: 2 }
    ));
    assert_eq!(retry.number(), 3);
    assert!(matches!(retry.after(&reply("late")), RetryStep::Done(t) if t == "late"));
}

#[test]
fn generation_gives_up() {
    let mut retry = Retry::new();
    retry.after(&TryOutcome::Unreadable);
    retry.after(&TryOutcome::Unreachable);
    match retry.after(&TryOutcome::Reply(object("response", number(1.0)))) {
        RetryStep::GiveUpAfter { secs, report } => {
            assert_eq!(secs, 2);
            assert_eq!(report, "Ollama connections permanently dropped.");
        }
        other => panic!("{:?}", other),
    }
    assert_eq!(retry.number(), 3);
}
