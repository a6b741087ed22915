use astrbot::api::auth::{
    auth_gate, bearer_token, check_rate_limit, client_ip, credentials_match, is_public_path, login, presented_token,
    AuthGate, LoginAttempts, LoginDecision,
};
use astrbot::api::frontend::FrontendService;
use astrbot::api::replies::{
    api_error_body, count_value, deletion_reply, error_body, plugin_info_json, provider_instance_json, stats_json,
    status_body, uptime_secs,
};
use astrbot::config::DashboardConfig;
use astrbot::json::JsonValue;
use astrbot::provider::entities::{ProviderMeta, ProviderType};
use serde_json::Value;

fn api_json(v: &JsonValue) -> Value {
    match v {
        JsonValue::Null => Value::Null,
        JsonValue::Bool(b) => Value::Bool(*b),
        JsonValue::Int(n) => Value::from(*n),
        JsonValue::Number(s) => serde_json::from_str(s).unwrap(),
        JsonValue::Str(s) => Value::String(s.clone()),
        JsonValue::Array(items) => Value::Array(items.iter().map(api_json).collect()),
        JsonValue::Object(members) => {
            let mut m = serde_json::Map::new();
            for (k, v) in members {
                m.insert(k.clone(), api_json(v));
            }
            Value::Object(m)
        },
    }
}

#[test]
fn rate_limit_allows_five_attempts_per_minute() {
    let mut attempts = LoginAttempts::new();
    for _ in 0..5 {
        assert!(check_rate_limit(&mut attempts, "1.2.3.4", 1000));
    }
    assert!(!check_rate_limit(&mut attempts, "1.2.3.4", 1030));
    assert!(!check_rate_limit(&mut attempts, "1.2.3.4", 1060));
    assert!(check_rate_limit(&mut attempts, "5.6.7.8", 1060));
    // A window older than 60 seconds starts over.
    assert!(check_rate_limit(&mut attempts, "1.2.3.4", 1061));
    for _ in 0..4 {
        assert!(check_rate_limit(&mut attempts, "1.2.3.4", 1062));
    }
    assert!(!check_rate_limit(&mut attempts, "1.2.3.4", 1062));
    assert_eq!(attempts.records.len(), 2);
}

#[test]
fn login_checks_throttle_then_credentials() {
    let mut attempts = LoginAttempts::new();
    let d = DashboardConfig::default();
    match login(&mut attempts, None, &d, "astrbot", "astrbot", 500) {
        LoginDecision::Issue(c) => {
            assert_eq!(c.sub, "astrbot");
            assert_eq!(c.iat, 500);
            assert_eq!(c.exp, 500 + 86400);
        },
        other => panic!("unexpected {other:?}"),
    }
    let bad = login(&mut attempts, None, &d, "astrbot", "wrong", 501);
    assert!(matches!(bad, LoginDecision::InvalidCredentials));
    assert_eq!(bad.status(), 401);
    assert_eq!(bad.error_message(), Some("invalid credentials"));
    for _ in 0..3 {
        login(&mut attempts, None, &d, "x", "y", 502);
    }
    let limited = login(&mut attempts, None, &d, "astrbot", "astrbot", 503);
    assert!(matches!(limited, LoginDecision::TooManyAttempts));
    assert_eq!(limited.status(), 429);
    assert_eq!(limited.error_message(), Some("too many login attempts, try again later"));
    // Another address is counted on its own.
    let other = login(&mut attempts, Some("10.0.0.1"), &d, "astrbot", "astrbot", 503);
    assert_eq!(other.status(), 200);
    assert_eq!(other.error_message(), None);
}

#[test]
fn configured_credentials_replace_the_defaults() {
    let d = DashboardConfig {
        host: "0.0.0.0".to_string(),
        port: 1,
        username: Some("admin".to_string()),
        password: Some("pw".to_string()),
        jwt_secret: None,
    };
    assert!(credentials_match(&d, "admin", "pw"));
    assert!(!credentials_match(&d, "astrbot", "astrbot"));
    assert!(credentials_match(&DashboardConfig::default(), "astrbot", "astrbot"));
    assert_eq!(client_ip(None), "unknown");
    assert_eq!(client_ip(Some("9.9.9.9")), "9.9.9.9");
}

#[test]
fn auth_gate_lets_public_paths_through() {
    assert!(is_public_path("/api/v1/auth/login"));
    assert!(is_public_path("/api/v1/operations/health"));
    assert!(!is_public_path("/api/v1/auth/verify"));
    assert!(matches!(auth_gate("/api/v1/auth/login", None), AuthGate::Public));
    assert!(matches!(auth_gate("/api/v1/stats", None), AuthGate::MissingToken));
    assert!(matches!(auth_gate("/api/v1/stats", Some("Basic abc")), AuthGate::MissingToken));
    match auth_gate("/api/v1/stats", Some("Bearer tok.en")) {
        AuthGate::Verify(t) => assert_eq!(t, "tok.en"),
        other => panic!("unexpected {other:?}"),
    }
    assert_eq!(bearer_token(Some("Bearer ")).as_deref(), Some(""));
    assert_eq!(bearer_token(Some("bearer x")), None);
    assert_eq!(presented_token(Some("Bearer abc")), "abc");
    assert_eq!(presented_token(None), "");
}

#[test]
fn reply_bodies() {
    let e = api_json(&api_error_body(404, "nope"));
    assert_eq!(e["error"], "nope");
    assert_eq!(e["code"], 404);
    assert_eq!(api_json(&error_body("x"))["error"], "x");
    assert_eq!(api_json(&status_body("ok"))["status"], "ok");
    let meta = ProviderMeta {
        id: "p1".to_string(),
        model: None,
        provider_type: "openai_chat_completion".to_string(),
        provider_kind: ProviderType::ChatCompletion,
    };
    let inst = api_json(&provider_instance_json(&meta));
    assert_eq!(inst["id"], "p1");
    assert!(inst["model"].is_null());
    assert_eq!(inst["type"], "openai_chat_completion");
    assert_eq!(inst["provider_kind"], "chat_completion");
    let plugin = api_json(&plugin_info_json("hello", "says hello"));
    assert_eq!(plugin["name"], "hello");
    assert_eq!(plugin["description"], "says hello");
    let stats = api_json(&stats_json(2, 90));
    assert_eq!(stats["status"], "running");
    assert_eq!(stats["providers"], 2);
    assert_eq!(stats["uptime_secs"], 90);
    assert_eq!(uptime_secs(100, 160), 60);
    assert_eq!(uptime_secs(200, 160), 0);
    assert_eq!(api_json(&count_value(u64::MAX)), serde_json::from_str::<Value>("18446744073709551615").unwrap());
    let (status, body) = deletion_reply(1);
    assert_eq!(status, 200);
    assert_eq!(api_json(&body)["status"], "deleted");
    let (status, body) = deletion_reply(0);
    assert_eq!(status, 404);
    assert_eq!(api_json(&body)["error"], "conversation not found");
}

#[test]
fn frontend_service_remembers_its_directory() {
    assert_eq!(FrontendService::new("data/dist".to_string()).dist_dir, "data/dist");
}
