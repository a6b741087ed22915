use astrbot::json::JsonValue;
use astrbot::provider::entities::{LLMResponse, ProviderRequest, ProviderType, TokenUsage};
use astrbot::provider::manager::ProviderManager;
use astrbot::provider::openai_compat::{completion_outcome, status_outcome, usage_from_counts, AttemptOutcome, ChatChoice, ChatRetry, OpenAICompatProvider};
use astrbot::utils::error::AstrBotError;
use serde_json::Value;

fn pv_json(v: &JsonValue) -> Value {
    match v {
        JsonValue::Null => Value::Null,
        JsonValue::Bool(b) => Value::Bool(*b),
        JsonValue::Int(n) => Value::from(*n),
        JsonValue::Number(s) => serde_json::from_str(s).unwrap(),
        JsonValue::Str(s) => Value::String(s.clone()),
        JsonValue::Array(items) => Value::Array(items.iter().map(pv_json).collect()),
        JsonValue::Object(members) => {
            let mut m = serde_json::Map::new();
            for (k, v) in members {
                m.insert(k.clone(), pv_json(v));
            }
            Value::Object(m)
        },
    }
}

#[test]
fn test_meta() {
    let provider = OpenAICompatProvider::new("my-provider", "http://localhost:8080", "key", "gpt-4");
    let meta = provider.meta();
    assert_eq!(meta.id, "my-provider");
    assert_eq!(meta.model.as_deref(), Some("gpt-4"));
    assert_eq!(meta.provider_type, "openai_chat_completion");
    assert_eq!(meta.provider_kind, ProviderType::ChatCompletion);
}

#[test]
fn provider_addresses_and_authorization() {
    let p = OpenAICompatProvider::new("p", "https://api.example.com///", "sk-1", "m");
    assert_eq!(p.base_url, "https://api.example.com");
    assert_eq!(p.authorization, "Bearer sk-1");
    assert_eq!(p.max_attempts, 3);
    assert_eq!(p.completion_url(), "https://api.example.com/v1/chat/completions");
    let empty_key = OpenAICompatProvider::new("p", "http://h", "", "m");
    assert_eq!(empty_key.authorization, "Bearer ");
}

#[test]
fn request_body_with_prompt() {
    let p = OpenAICompatProvider::new("test", "http://127.0.0.1", "test-key", "test-model");
    let body = pv_json(&p.request_body(&ProviderRequest::prompt("Say hello")));
    assert_eq!(body["model"], "test-model");
    assert_eq!(body["stream"], false);
    let messages = body["messages"].as_array().unwrap();
    assert_eq!(messages.len(), 1);
    assert_eq!(messages[0]["role"], "user");
    assert_eq!(messages[0]["content"], "Say hello");
}

#[test]
fn request_body_with_system_prompt_context_and_model() {
    let p = OpenAICompatProvider::new("test", "http://127.0.0.1", "k", "default-model");
    let mut req = ProviderRequest::prompt("Hello");
    req.system_prompt = Some("You are a helpful assistant.".to_string());
    req.model = Some("other".to_string());
    req.contexts = vec![
        JsonValue::Object(vec![
            ("role".to_string(), JsonValue::Str("assistant".to_string())),
            ("content".to_string(), JsonValue::Str("earlier".to_string())),
        ]),
        JsonValue::Str("not an object".to_string()),
    ];
    let body = pv_json(&p.request_body(&req));
    assert_eq!(body["model"], "other");
    let messages = body["messages"].as_array().unwrap();
    assert_eq!(messages.len(), 3);
    assert_eq!(messages[0]["role"], "system");
    assert_eq!(messages[0]["content"], "You are a helpful assistant.");
    assert_eq!(messages[1]["content"], "earlier");
    assert_eq!(messages[2]["role"], "user");
    assert_eq!(messages[2]["content"], "Hello");

    let mut empty_system = ProviderRequest::default();
    empty_system.system_prompt = Some(String::new());
    assert!(p.build_messages(&empty_system).is_empty());
}

#[test]
fn retry_delays_double() {
    assert_eq!(OpenAICompatProvider::retry_delay_ms(0), None);
    assert_eq!(OpenAICompatProvider::retry_delay_ms(1), Some(2000));
    assert_eq!(OpenAICompatProvider::retry_delay_ms(2), Some(4000));
    assert_eq!(OpenAICompatProvider::retry_delay_ms(3), Some(8000));
    assert_eq!(OpenAICompatProvider::retry_delay_ms(54), Some(1000u64 << 54));
}

#[test]
fn success_ends_the_request() {
    let p = OpenAICompatProvider::new("t", "http://h", "k", "m");
    let mut st = ChatRetry::new();
    let choice = ChatChoice { role: "assistant".to_string(), content: Some("Hello from mock!".to_string()), reasoning_content: None };
    let r = p.record_attempt(&mut st, AttemptOutcome::Completed { choice: Some(choice), usage: Some((10, 2, None)) });
    let resp = r.unwrap().unwrap();
    assert_eq!(resp.role, "assistant");
    assert_eq!(resp.completion_text, "Hello from mock!");
    assert!(!resp.is_chunk);
    let usage = resp.usage.unwrap();
    assert_eq!(usage.total(), 12);
    assert_eq!(usage.input_other, 10);
    assert_eq!(usage.output, 2);
}

#[test]
fn client_errors_are_not_retried() {
    let p = OpenAICompatProvider::new("t", "http://h", "k", "m");
    let mut st = ChatRetry::new();
    let r = p.record_attempt(&mut st, AttemptOutcome::ClientError { status: "400 Bad Request".to_string(), body: "Bad request".to_string() });
    match r {
        Some(Err(AstrBotError::Provider(m))) => assert!(m.contains("400"), "Error should mention 400: {m}"),
        other => panic!("unexpected {other:?}"),
    }
}

#[test]
fn server_errors_are_retried_then_reported() {
    let p = OpenAICompatProvider::new("t", "http://h", "k", "m");
    let mut st = ChatRetry::new();
    let fail = || AttemptOutcome::ServerError { status: "500 Internal Server Error".to_string(), body: "Internal".to_string() };
    assert!(p.record_attempt(&mut st, fail()).is_none());
    assert_eq!(st.attempt, 1);
    assert!(p.record_attempt(&mut st, AttemptOutcome::Transport("timed out".to_string())).is_none());
    assert_eq!(st.last_error.as_deref(), Some("timed out"));
    match p.record_attempt(&mut st, fail()) {
        Some(Err(e)) => {
            assert_eq!(e.message(), "Provider error: HTTP 500 Internal Server Error: Internal");
            assert!(e.message().contains("500"));
        },
        other => panic!("unexpected {other:?}"),
    }
}

#[test]
fn empty_choices_and_parse_errors_are_failures() {
    let p = OpenAICompatProvider::new("t", "http://h", "", "m");
    let mut st = ChatRetry::new();
    assert!(p.record_attempt(&mut st, AttemptOutcome::Completed { choice: None, usage: None }).is_none());
    assert_eq!(st.last_error.as_deref(), Some("No choices in response"));
    assert!(p.record_attempt(&mut st, AttemptOutcome::ParseError("eof".to_string())).is_none());
    assert_eq!(st.last_error.as_deref(), Some("Parse error: eof"));
    let r = p.record_attempt(&mut st, AttemptOutcome::Completed { choice: None, usage: None });
    assert!(matches!(r, Some(Err(AstrBotError::Provider(_)))));
}

#[test]
fn usage_subtracts_cached_tokens() {
    let u = usage_from_counts(100, 20, Some(30));
    assert_eq!((u.input_other, u.input_cached, u.output), (70, 30, 20));
    assert_eq!(u.input(), 100);
    assert_eq!(u.total(), 120);
    let clipped = usage_from_counts(5, 1, Some(9));
    assert_eq!(clipped.input_other, 0);
    let d = TokenUsage::default();
    assert_eq!(d.total(), 0);
}

#[test]
fn entities() {
    let r = LLMResponse::text("hi");
    assert_eq!(r.role, "assistant");
    assert_eq!(r.completion_text, "hi");
    assert!(r.usage.is_none() && r.reasoning_content.is_none() && !r.is_chunk);
    let q = ProviderRequest::prompt("p");
    assert_eq!(q.prompt.as_deref(), Some("p"));
    assert!(q.system_prompt.is_none() && q.contexts.is_empty() && q.model.is_none() && !q.stream);
    assert_eq!(ProviderType::ChatCompletion.as_str(), "chat_completion");
    assert_eq!(ProviderType::SpeechToText.as_str(), "speech_to_text");
    assert_eq!(ProviderType::TextToSpeech.as_str(), "text_to_speech");
    assert_eq!(ProviderType::Embedding.as_str(), "embedding");
    assert_eq!(ProviderType::Rerank.as_str(), "rerank");
}

#[test]
fn provider_manager_tracks_the_provider_in_use() {
    let mut mgr: ProviderManager<&str> = ProviderManager::new();
    assert!(mgr.is_empty());
    assert!(mgr.get_using_provider().is_none());
    mgr.register("a".to_string(), "first");
    mgr.register("b".to_string(), "second");
    assert_eq!(mgr.len(), 2);
    assert_eq!(mgr.get_using_provider(), Some(&"first"));
    mgr.register("a".to_string(), "replaced");
    assert_eq!(mgr.len(), 2);
    assert_eq!(mgr.get_provider_by_id("a"), Some(&"replaced"));
    assert!(mgr.set_default_provider("b").is_ok());
    assert_eq!(mgr.get_using_provider(), Some(&"second"));
    match mgr.set_default_provider("zzz") {
        Err(e) => assert_eq!(e.message(), "Not found: Provider zzz not found"),
        Ok(()) => panic!("unknown id accepted"),
    }
    let listed = mgr.list_providers();
    assert_eq!(listed, vec![("a".to_string(), "chat_completion".to_string()), ("b".to_string(), "chat_completion".to_string())]);
    mgr.remove("b");
    assert_eq!(mgr.get_using_provider(), Some(&"replaced"));
    mgr.remove("a");
    assert!(mgr.get_using_provider().is_none());
    mgr.register("c".to_string(), "third");
    mgr.clear();
    assert!(mgr.is_empty());
    assert!(mgr.get_using_provider().is_none());
}

fn jobj(pairs: Vec<(&str, JsonValue)>) -> JsonValue {
    JsonValue::Object(pairs.into_iter().map(|(k, v)| (k.to_string(), v)).collect())
}

fn js(t: &str) -> JsonValue {
    JsonValue::Str(t.to_string())
}

#[test]
fn completion_bodies_are_read() {
    let choice = jobj(vec![("message", jobj(vec![("role", js("assistant")), ("content", js("Hello from mock!"))]))]);
    let body = jobj(vec![
        ("id", js("cmpl-1")),
        ("choices", JsonValue::Array(vec![choice])),
        ("usage", jobj(vec![("prompt_tokens", JsonValue::Int(10)), ("completion_tokens", JsonValue::Int(2))])),
    ]);
    match completion_outcome(&body) {
        AttemptOutcome::Completed { choice: Some(c), usage } => {
            assert_eq!(c.role, "assistant");
            assert_eq!(c.content.as_deref(), Some("Hello from mock!"));
            assert!(c.reasoning_content.is_none());
            assert_eq!(usage, Some((10, 2, None)));
        },
        other => panic!("unexpected {other:?}"),
    }
    match completion_outcome(&jobj(vec![("id", js("x")), ("choices", JsonValue::Array(vec![]))])) {
        AttemptOutcome::Completed { choice: None, usage: None } => {},
        other => panic!("unexpected {other:?}"),
    }
}

#[test]
fn malformed_completion_bodies_are_parse_errors() {
    let parse_error = |b: &JsonValue| match completion_outcome(b) {
        AttemptOutcome::ParseError(m) => m,
        other => panic!("unexpected {other:?}"),
    };
    assert_eq!(parse_error(&jobj(vec![("choices", JsonValue::Array(vec![]))])), "missing or invalid field `id`");
    assert_eq!(parse_error(&JsonValue::Null), "missing or invalid field `id`");
    assert_eq!(parse_error(&jobj(vec![("id", js("x")), ("choices", JsonValue::Null)])), "invalid type for field `choices`");
    let no_role = jobj(vec![("message", jobj(vec![("content", js("c"))]))]);
    assert_eq!(
        parse_error(&jobj(vec![("id", js("x")), ("choices", JsonValue::Array(vec![no_role]))])),
        "invalid choice in `choices`"
    );
    let bad_usage = jobj(vec![("prompt_tokens", JsonValue::Int(-1))]);
    assert_eq!(
        parse_error(&jobj(vec![("id", js("x")), ("usage", bad_usage)])),
        "invalid field `usage`"
    );
    let p = OpenAICompatProvider::new("t", "http://h", "k", "m");
    let mut st = ChatRetry::new();
    assert!(p.record_attempt(&mut st, completion_outcome(&JsonValue::Null)).is_none());
    assert_eq!(st.last_error.as_deref(), Some("Parse error: missing or invalid field `id`"));
}

#[test]
fn statuses_decide_retries() {
    match status_outcome(400, "400 Bad Request".to_string(), "Bad request".to_string()) {
        Some(AttemptOutcome::ClientError { status, body }) => {
            assert_eq!(status, "400 Bad Request");
            assert_eq!(body, "Bad request");
        },
        other => panic!("unexpected {other:?}"),
    }
    assert!(matches!(status_outcome(500, "500".to_string(), "Internal".to_string()), Some(AttemptOutcome::ServerError { .. })));
    assert!(matches!(status_outcome(302, "302".to_string(), String::new()), Some(AttemptOutcome::ServerError { .. })));
    assert!(status_outcome(200, "200 OK".to_string(), String::new()).is_none());
}
