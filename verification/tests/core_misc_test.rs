use astrbot::assoc::{assoc_insert, assoc_lookup};
use astrbot::json::JsonValue;
use astrbot::plugin::{Plugin, PluginManager};
use astrbot::text::{decimal_string, str_contains, str_ends_with, str_eq, str_strip_prefix, str_trim};
use astrbot::utils::error::AstrBotError;
use astrbot::utils::logging::{log_entry_json, LogBuffer, LogEntry};

struct Hello;

impl Plugin for Hello {
    fn name(&self) -> &str {
        "hello"
    }
}

#[test]
fn plugin_manager_keeps_registration_order() {
    let mut mgr: PluginManager<Box<dyn Plugin>> = PluginManager::default();
    assert!(mgr.is_empty());
    mgr.register(Box::new(Hello));
    mgr.register(Box::new(Hello));
    assert!(!mgr.is_empty());
    let listed = mgr.list();
    assert_eq!(listed.len(), 2);
    assert_eq!(listed[0].name(), "hello");
    assert_eq!(listed[0].description(), "");
    let fresh: PluginManager<u8> = PluginManager::new();
    assert!(fresh.list().is_empty());
}

#[test]
fn error_messages() {
    let cases = vec![
        (AstrBotError::Config("c".into()), "Configuration error: c"),
        (AstrBotError::Io("i".into()), "IO error: i"),
        (AstrBotError::Serde("s".into()), "Serialization error: s"),
        (AstrBotError::Network("n".into()), "Network error: n"),
        (AstrBotError::Provider("p".into()), "Provider error: p"),
        (AstrBotError::Platform("pl".into()), "Platform error: pl"),
        (AstrBotError::Database("d".into()), "Database error: d"),
        (AstrBotError::Plugin("pg".into()), "Plugin error: pg"),
        (AstrBotError::NotFound("x".into()), "Not found: x"),
        (AstrBotError::Custom("raw".into()), "raw"),
    ];
    for (e, text) in cases {
        assert_eq!(e.message(), text);
    }
}

fn entry(msg: &str) -> LogEntry {
    LogEntry { timestamp_secs: 1, timestamp_nanos: 0, level: "INFO".into(), target: "t".into(), message: msg.into() }
}

#[test]
fn log_buffer_keeps_the_newest_entries() {
    let mut buf = LogBuffer::new(3);
    for m in ["a", "b", "c", "d"] {
        buf.push(entry(m));
    }
    assert_eq!(buf.entries.len(), 3);
    let recent: Vec<String> = buf.recent(10).into_iter().map(|e| e.message).collect();
    assert_eq!(recent, vec!["d", "c", "b"]);
    let two: Vec<String> = buf.recent(2).into_iter().map(|e| e.message).collect();
    assert_eq!(two, vec!["d", "c"]);
    assert!(buf.recent(0).is_empty());
    let mut zero = LogBuffer::new(0);
    zero.push(entry("x"));
    zero.push(entry("y"));
    assert_eq!(zero.entries.len(), 1);
    assert_eq!(zero.recent(5)[0].message, "y");
}

#[test]
fn text_helpers() {
    assert!(str_eq("héllo", "héllo"));
    assert!(!str_eq("a", "ab"));
    assert!(!str_eq("é", "e"));
    assert!(str_ends_with("/api/auth/login", "/auth/login"));
    assert!(!str_ends_with("x", "longer"));
    assert_eq!(str_strip_prefix("Bearer t", "Bearer ").as_deref(), Some("t"));
    assert_eq!(str_strip_prefix("t", "Bearer "), None);
    assert!(str_contains("errcode -14", "-14"));
    assert!(!str_contains("", "a"));
    assert_eq!(str_trim("  a b \n"), "a b");
    assert_eq!(decimal_string(0), "0");
    assert_eq!(decimal_string(1234567890), "1234567890");
    assert_eq!(decimal_string(u64::MAX), "18446744073709551615");
}

#[test]
fn json_lookup() {
    let v = JsonValue::Object(vec![
        ("a".to_string(), JsonValue::Int(-3)),
        ("b".to_string(), JsonValue::Str("x".to_string())),
        ("a".to_string(), JsonValue::Int(9)),
    ]);
    assert!(v.is_object());
    assert_eq!(v.get("a").and_then(|x| x.as_i64()), Some(-3));
    assert_eq!(v.get_str("b").as_deref(), Some("x"));
    assert_eq!(v.get_str("a"), None);
    assert!(v.get("zz").is_none());
    assert!(!JsonValue::Null.is_object());
    assert_eq!(JsonValue::string("q").as_str().as_deref(), Some("q"));
}

#[test]
fn log_entries_as_json() {
    let mut e = entry("started");
    e.timestamp_secs = 1431648000;
    let j = log_entry_json(&e);
    assert_eq!(j.get_str("timestamp").as_deref(), Some("2015-05-15T00:00:00+00:00"));
    assert_eq!(j.get_str("level").as_deref(), Some("INFO"));
    assert_eq!(j.get_str("target").as_deref(), Some("t"));
    assert_eq!(j.get_str("message").as_deref(), Some("started"));
    e.timestamp_nanos = 500_000_000;
    assert_eq!(log_entry_json(&e).get_str("timestamp").as_deref(), Some("2015-05-15T00:00:00.500+00:00"));
    e.timestamp_secs = i64::MAX;
    assert!(matches!(log_entry_json(&e).get("timestamp"), Some(JsonValue::Null)));
}

#[test]
fn association_list_reads_back_writes() {
    let mut v: Vec<(String, String)> = Vec::new();
    assert_eq!(assoc_lookup(&v, "a"), None);
    assoc_insert(&mut v, "a".to_string(), "1".to_string());
    assoc_insert(&mut v, "b".to_string(), "2".to_string());
    assoc_insert(&mut v, "a".to_string(), "3".to_string());
    assert_eq!(assoc_lookup(&v, "a").as_deref(), Some("3"));
    assert_eq!(assoc_lookup(&v, "b").as_deref(), Some("2"));
    assert_eq!(v.len(), 2);
}
