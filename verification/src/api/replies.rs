//! The bodies the dashboard API answers with.
use vstd::prelude::*;

use crate::json::{json_object, members_view, Json, JsonValue};
use crate::provider::entities::{provider_type_name, ProviderMeta};
use crate::text::{decimal, decimal_string, string_from};

verus! {

/// A non-negative integer as JSON: an integer where it fits `i64`, else its
/// decimal text as a number.
pub open spec fn json_count(n: u64) -> Json {
    if n <= i64::MAX {
        Json::Int(n as i64)
    } else {
        Json::Number(decimal(n as nat))
    }
}

/// A non-negative integer as JSON.
pub fn count_value(n: u64) -> (r: JsonValue)
    ensures
        r@ == json_count(n),
{
    if n <= 9223372036854775807u64 {
        JsonValue::Int(n as i64)
    } else {
        JsonValue::Number(decimal_string(n))
    }
}

/// `{"error": message}`.
pub fn error_body(message: &str) -> (r: JsonValue)
    ensures
        r@ == Json::Object(seq![("error"@, Json::Str(message@))]),
{
    let mut m: Vec<(String, JsonValue)> = Vec::new();
    m.push((string_from("error"), JsonValue::string(message)));
    assert(members_view(m@) =~= seq![("error"@, Json::Str(message@))]);
    json_object(m)
}

/// `{"error": message, "code": status}`.
pub fn api_error_body(status: u16, message: &str) -> (r: JsonValue)
    ensures
        r@ == Json::Object(seq![("error"@, Json::Str(message@)), ("code"@, Json::Int(status as i64))]),
{
    let mut m: Vec<(String, JsonValue)> = Vec::new();
    m.push((string_from("error"), JsonValue::string(message)));
    m.push((string_from("code"), JsonValue::Int(status as i64)));
    assert(members_view(m@) =~= seq![("error"@, Json::Str(message@)), ("code"@, Json::Int(status as i64))]);
    json_object(m)
}

/// `{"status": status}`.
pub fn status_body(status: &str) -> (r: JsonValue)
    ensures
        r@ == Json::Object(seq![("status"@, Json::Str(status@))]),
{
    let mut m: Vec<(String, JsonValue)> = Vec::new();
    m.push((string_from("status"), JsonValue::string(status)));
    assert(members_view(m@) =~= seq![("status"@, Json::Str(status@))]);
    json_object(m)
}

/// How a provider instance is listed: its id, model (or null), type and kind.
pub open spec fn instance_json(meta: ProviderMeta) -> Json {
    Json::Object(
        seq![
            ("id"@, Json::Str(meta.id@)),
            ("model"@, match meta.model {
                Some(m) => Json::Str(m@),
                None => Json::Null,
            }),
            ("type"@, Json::Str(meta.provider_type@)),
            ("provider_kind"@, Json::Str(provider_type_name(meta.provider_kind))),
        ],
    )
}

/// How a provider instance is listed.
pub fn provider_instance_json(meta: &ProviderMeta) -> (r: JsonValue)
    ensures
        r@ == instance_json(*meta),
{
    let mut m: Vec<(String, JsonValue)> = Vec::new();
    m.push((string_from("id"), JsonValue::string(meta.id.as_str())));
    let model = match &meta.model {
        Some(s) => JsonValue::string(s.as_str()),
        None => JsonValue::Null,
    };
    m.push((string_from("model"), model));
    m.push((string_from("type"), JsonValue::string(meta.provider_type.as_str())));
    m.push((string_from("provider_kind"), JsonValue::string(meta.provider_kind.as_str())));
    assert(members_view(m@) =~= instance_json(*meta)->Object_0);
    json_object(m)
}

/// How a plugin is listed: `{"name": name, "description": description}`.
pub fn plugin_info_json(name: &str, description: &str) -> (r: JsonValue)
    ensures
        r@ == Json::Object(seq![("name"@, Json::Str(name@)), ("description"@, Json::Str(description@))]),
{
    let mut m: Vec<(String, JsonValue)> = Vec::new();
    m.push((string_from("name"), JsonValue::string(name)));
    m.push((string_from("description"), JsonValue::string(description)));
    assert(members_view(m@) =~= seq![("name"@, Json::Str(name@)), ("description"@, Json::Str(description@))]);
    json_object(m)
}

/// Seconds from `start` to `now`, zero if the clock went back.
pub fn uptime_secs(start: u64, now: u64) -> (r: u64)
    ensures
        r == (if now >= start { now - start } else { 0 }),
{
    if now >= start {
        now - start
    } else {
        0
    }
}

/// The running statistics: `{"status": "running", "providers": n, "uptime_secs": s}`.
pub fn stats_json(providers: u64, uptime: u64) -> (r: JsonValue)
    ensures
        r@ == Json::Object(
            seq![
                ("status"@, Json::Str("running"@)),
                ("providers"@, json_count(providers)),
                ("uptime_secs"@, json_count(uptime)),
            ],
        ),
{
    let mut m: Vec<(String, JsonValue)> = Vec::new();
    m.push((string_from("status"), JsonValue::string("running")));
    m.push((string_from("providers"), count_value(providers)));
    m.push((string_from("uptime_secs"), count_value(uptime)));
    assert(members_view(m@) =~= seq![
        ("status"@, Json::Str("running"@)),
        ("providers"@, json_count(providers)),
        ("uptime_secs"@, json_count(uptime)),
    ]);
    json_object(m)
}

/// The answer to deleting a conversation that removed `rows_affected` rows:
/// `200 {"status": "deleted"}` when one went, else `404` not found.
pub fn deletion_reply(rows_affected: u64) -> (r: (u16, JsonValue))
    ensures
        rows_affected > 0 ==> r.0 == 200 && r.1@ == Json::Object(seq![("status"@, Json::Str("deleted"@))]),
        rows_affected == 0 ==> r.0 == 404 && r.1@ == Json::Object(
            seq![("error"@, Json::Str("conversation not found"@))],
        ),
{
    if rows_affected > 0 {
        (200, status_body("deleted"))
    } else {
        (404, error_body("conversation not found"))
    }
}

} // verus!
