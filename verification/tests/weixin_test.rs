use astrbot::json::JsonValue;
use astrbot::platform::message::MessageType;
use astrbot::platform::message_chain::{File, Image, MessageChain, MessageComponent, Plain, Record};
use astrbot::platform::sources::weixin_oc::adapter::{
    media_item, media_keys_from, new_media_keys, new_uuid_string, plan_outgoing_items, sync_buf_path_for, sync_error_outcome,
    text_item, typing_ticket, upload_params, upload_request, uuid_string, uuid_string_from, LoginStep, OutgoingItem, WeixinOCAdapter,
};
use astrbot::platform::sources::weixin_oc::cache::{CachedMessage, RecentMessageCache};
use astrbot::platform::sources::weixin_oc::client::{api_status_check, cdn_download_check, cdn_upload_outcome, HttpMethod, WeixinOCClient};
use astrbot::platform::sources::weixin_oc::event::WeixinOCMessageEvent;
use astrbot::platform::metadata::PlatformMetadata;
use base64::Engine;
use serde_json::Value;

fn wx_json(v: &JsonValue) -> Value {
    match v {
        JsonValue::Null => Value::Null,
        JsonValue::Bool(b) => Value::Bool(*b),
        JsonValue::Int(n) => Value::from(*n),
        JsonValue::Number(s) => serde_json::from_str(s).unwrap(),
        JsonValue::Str(s) => Value::String(s.clone()),
        JsonValue::Array(items) => Value::Array(items.iter().map(wx_json).collect()),
        JsonValue::Object(members) => {
            let mut m = serde_json::Map::new();
            for (k, v) in members {
                m.insert(k.clone(), wx_json(v));
            }
            Value::Object(m)
        },
    }
}

fn wx_str(text: &str) -> JsonValue {
    JsonValue::Str(text.to_string())
}

fn wx_obj(pairs: Vec<(&str, JsonValue)>) -> JsonValue {
    JsonValue::Object(pairs.into_iter().map(|(k, v)| (k.to_string(), v)).collect())
}

fn text_msg(id: &str, from: &str, text: &str) -> JsonValue {
    wx_obj(vec![
        ("msg_id", wx_str(id)),
        ("from_user_id", wx_str(from)),
        ("from_nickname", wx_str("Nick")),
        ("item_list", JsonValue::Array(vec![wx_obj(vec![
            ("type", JsonValue::Int(1)),
            ("text_item", wx_obj(vec![("text", wx_str(text))])),
        ])])),
    ])
}

fn cached(id: &str, text: &str, ts: i64) -> CachedMessage {
    CachedMessage { message_id: id.to_string(), sender_id: "u".to_string(), text: text.to_string(), timestamp: ts }
}

#[test]
fn cache_keeps_recent_messages_per_session() {
    let mut cache = RecentMessageCache::new(2, 10);
    cache.add("s".to_string(), cached("1", "one", 1));
    cache.add("s".to_string(), cached("2", "two", 2));
    cache.add("s".to_string(), cached("3", "three", 3));
    assert!(cache.find_reply("s", "1").is_none());
    assert_eq!(cache.find_reply("s", "2").unwrap().text, "two");
    assert_eq!(cache.find_reply("s", "3").unwrap().text, "three");
    assert!(cache.find_reply("other", "3").is_none());
    assert_eq!(cache.sessions.len(), 1);
    assert_eq!(cache.sessions[0].1.len(), 2);
}

#[test]
fn cache_prunes_sessions_with_newest_messages_first() {
    let mut cache = RecentMessageCache::new(5, 2);
    cache.add("a".to_string(), cached("1", "a", 10));
    cache.add("b".to_string(), cached("2", "b", 20));
    cache.add("c".to_string(), cached("3", "c", 30));
    assert_eq!(cache.sessions.len(), 2);
    let names: Vec<&str> = cache.sessions.iter().map(|(n, _)| n.as_str()).collect();
    assert_eq!(names, vec!["a", "b"]);
    cache.prune_sessions();
    assert_eq!(cache.sessions.len(), 2);
}

#[test]
fn adapter_starts_empty() {
    let a = WeixinOCAdapter::new("wx", "https://api.example", "https://cdn.example", None, "cursor".to_string());
    assert_eq!(a.meta.id, "wx");
    assert_eq!(a.meta.name, "weixin_oc");
    assert_eq!(a.meta.display_name, "个人微信");
    assert_eq!(a.sync_buf, "cursor");
    assert_eq!(a.sync_buf_path, "data/weixin_oc_sync_buf_wx.dat");
    assert_eq!(sync_buf_path_for("x"), "data/weixin_oc_sync_buf_x.dat");
    assert_eq!(a.cached_messages.max_cache_size, 100);
    assert_eq!(a.cached_messages.max_sessions, 500);
    let body = wx_json(&a.sync_request_body());
    assert_eq!(body["get_updates_buf"], "cursor");
    assert_eq!(body["base_info"]["channel_version"], "astrbot");
    let client = a.client();
    assert_eq!(client.api_timeout_ms, 120_000);
    assert_eq!(client.base_url, "https://api.example");
}

#[test]
fn message_items_are_read_by_type() {
    let text = wx_obj(vec![("type", JsonValue::Int(1)), ("text_item", wx_obj(vec![("text", wx_str("hi"))]))]);
    assert_eq!(WeixinOCAdapter::parse_message_item(&text), Some(("text".to_string(), "hi".to_string())));
    let image = wx_obj(vec![("type", JsonValue::Int(2))]);
    assert_eq!(WeixinOCAdapter::parse_message_item(&image), Some(("image".to_string(), "[图片]".to_string())));
    let voice = wx_obj(vec![("type", JsonValue::Int(3))]);
    assert_eq!(WeixinOCAdapter::parse_message_item(&voice), Some(("voice".to_string(), "[语音]".to_string())));
    let voice_text = wx_obj(vec![("type", JsonValue::Int(3)), ("voice_item", wx_obj(vec![("text", wx_str("said"))]))]);
    assert_eq!(WeixinOCAdapter::parse_message_item(&voice_text).unwrap().1, "said");
    let file = wx_obj(vec![("type", JsonValue::Int(4))]);
    assert_eq!(WeixinOCAdapter::parse_message_item(&file).unwrap().1, "[文件]");
    let video = wx_obj(vec![("type", JsonValue::Int(5))]);
    assert_eq!(WeixinOCAdapter::parse_message_item(&video).unwrap().1, "[视频]");
    assert_eq!(WeixinOCAdapter::parse_message_item(&wx_obj(vec![("type", JsonValue::Int(9))])), None);
}

#[test]
fn sync_response_skips_duplicates_and_quotes_replies() {
    let mut a = WeixinOCAdapter::new("wx", "b", "c", None, String::new());
    let first = text_msg("m1", "alice", "hello");
    let dup = text_msg("m1", "alice", "hello again");
    let mut reply = text_msg("m2", "alice", "answer");
    if let JsonValue::Object(members) = &mut reply {
        members.push(("ref_msg".to_string(), wx_obj(vec![("msg_id", wx_str("m1"))])));
        members.push(("context_token".to_string(), wx_str("ctx-1")));
    }
    let data = wx_obj(vec![
        ("msgs", JsonValue::Array(vec![first, dup, reply])),
        ("get_updates_buf", wx_str("next")),
    ]);
    let (buf, msgs) = a.handle_sync_response(&data).unwrap();
    assert_eq!(buf.as_deref(), Some("next"));
    assert_eq!(a.sync_buf, "next");
    assert_eq!(msgs.len(), 2);
    assert_eq!(msgs[0].message_id, "m1");
    assert_eq!(msgs[0].message_str, "hello");
    assert_eq!(msgs[0].session_id, "alice");
    assert_eq!(msgs[0].self_id, "wx");
    assert_eq!(msgs[0].message_type, MessageType::FriendMessage);
    assert_eq!(msgs[0].sender.nickname.as_deref(), Some("Nick"));
    assert_eq!(msgs[1].message_str, "[回复: hello] answer");
    assert_eq!(a.context_token_for("alice").as_deref(), Some("ctx-1"));
    assert_eq!(a.context_token_for("bob"), None);
}

#[test]
fn group_messages_use_the_group_as_session() {
    let mut a = WeixinOCAdapter::new("wx", "b", "c", None, String::new());
    let mut m = text_msg("g1", "carol", "hey all");
    if let JsonValue::Object(members) = &mut m {
        members.push(("group_id".to_string(), wx_str("room")));
    }
    let msgs = a.parse_sync_response(&wx_obj(vec![("msgs", JsonValue::Array(vec![m]))]));
    assert_eq!(msgs.len(), 1);
    assert_eq!(msgs[0].message_type, MessageType::GroupMessage);
    assert_eq!(msgs[0].session_id, "room");
    assert_eq!(msgs[0].group.as_ref().unwrap().group_id, "room");
    assert_eq!(msgs[0].sender.user_id, "carol");
}

#[test]
fn sync_timeout_and_errors() {
    let mut a = WeixinOCAdapter::new("wx", "b", "c", None, "keep".to_string());
    let err = a.handle_sync_response(&wx_obj(vec![("errcode", JsonValue::Int(-14))])).unwrap_err();
    assert_eq!(err, "session timeout");
    assert_eq!(a.sync_buf, "keep");
    let (buf, msgs) = a.handle_sync_response(&wx_obj(vec![])).unwrap();
    assert!(buf.is_none() && msgs.is_empty());
    assert_eq!(sync_error_outcome("ret=-14 expired").as_deref(), Some("session expired: ret=-14 expired"));
    assert_eq!(sync_error_outcome("timeout"), None);
}

#[test]
fn qr_login_flow() {
    let start = wx_obj(vec![("qrcode", wx_str("q1")), ("qrcode_img_content", wx_str("https://img"))]);
    assert_eq!(WeixinOCAdapter::qr_login_start(&start).unwrap(), ("q1".to_string(), "https://img".to_string()));
    assert_eq!(WeixinOCAdapter::qr_login_start(&wx_obj(vec![])).unwrap_err(), "missing qrcode");
    assert_eq!(
        WeixinOCAdapter::qr_login_start(&wx_obj(vec![("qrcode", wx_str("q"))])).unwrap_err(),
        "missing qrcode_img_content"
    );

    let mut a = WeixinOCAdapter::new("wx", "b", "c", None, String::new());
    assert!(matches!(a.login_status_step(&wx_obj(vec![])), LoginStep::Wait));
    assert!(matches!(a.login_status_step(&wx_obj(vec![("status", wx_str("scaned"))])), LoginStep::Wait));
    match a.login_status_step(&wx_obj(vec![("status", wx_str("expired"))])) {
        LoginStep::Failed(e) => assert_eq!(e, "qr expired"),
        other => panic!("unexpected {other:?}"),
    }
    match a.login_status_step(&wx_obj(vec![("status", wx_str("confirmed"))])) {
        LoginStep::Failed(e) => assert_eq!(e, "missing bot_token"),
        other => panic!("unexpected {other:?}"),
    }
    assert!(a.token.is_none());
    match a.login_status_step(&wx_obj(vec![("status", wx_str("confirmed")), ("bot_token", wx_str("tok"))])) {
        LoginStep::Confirmed(t) => assert_eq!(t, "tok"),
        other => panic!("unexpected {other:?}"),
    }
    assert_eq!(a.token.as_deref(), Some("tok"));
    assert_eq!(a.client().token.as_deref(), Some("tok"));
}

#[test]
fn outgoing_plan_merges_text_and_splits_media() {
    let mut chain = MessageChain::new();
    chain.push(MessageComponent::Plain(Plain::new("a")));
    chain.push(MessageComponent::Plain(Plain::new("b")));
    chain.push(MessageComponent::Image(Image::from_file("/tmp/pic.png")));
    chain.push(MessageComponent::Image(Image::from_url("http://x/y.png")));
    chain.push(MessageComponent::Plain(Plain::new("c")));
    chain.push(MessageComponent::File(File::new("", "/data/report.pdf")));
    chain.push(MessageComponent::Record(Record::new("/tmp/v.silk")));
    chain.push(MessageComponent::Plain(Plain::new("tail")));
    let items = plan_outgoing_items(&chain);
    assert_eq!(items.len(), 6);
    match &items[0] {
        OutgoingItem::Text(t) => assert_eq!(t, "ab"),
        other => panic!("unexpected {other:?}"),
    }
    match &items[1] {
        OutgoingItem::Media { path, upload_media_type, item_type, file_name } => {
            assert_eq!(path, "/tmp/pic.png");
            assert_eq!((*upload_media_type, *item_type), (1, 2));
            assert_eq!(file_name, "");
        },
        other => panic!("unexpected {other:?}"),
    }
    match &items[2] {
        OutgoingItem::Text(t) => assert_eq!(t, "c"),
        other => panic!("unexpected {other:?}"),
    }
    match &items[3] {
        OutgoingItem::Media { path, upload_media_type, item_type, file_name } => {
            assert_eq!(path, "/data/report.pdf");
            assert_eq!((*upload_media_type, *item_type), (3, 4));
            assert_eq!(file_name, "report.pdf");
        },
        other => panic!("unexpected {other:?}"),
    }
    match &items[4] {
        OutgoingItem::Media { upload_media_type, item_type, .. } => assert_eq!((*upload_media_type, *item_type), (1, 3)),
        other => panic!("unexpected {other:?}"),
    }
    match &items[5] {
        OutgoingItem::Text(t) => assert_eq!(t, "tail"),
        other => panic!("unexpected {other:?}"),
    }
    assert!(plan_outgoing_items(&MessageChain::new()).is_empty());
}

#[test]
fn send_payload_carries_items_and_context_token() {
    let mut a = WeixinOCAdapter::new("wx", "b", "c", None, String::new());
    let mut m = text_msg("m9", "dave", "hi");
    if let JsonValue::Object(members) = &mut m {
        members.push(("context_token".to_string(), wx_str("ctx-d")));
    }
    a.parse_sync_response(&wx_obj(vec![("msgs", JsonValue::Array(vec![m]))]));
    let payload = wx_json(&a.send_payload("dave", "cid-1", vec![text_item("yo")]));
    assert_eq!(payload["base_info"]["channel_version"], "astrbot");
    assert_eq!(payload["msg"]["to_user_id"], "dave");
    assert_eq!(payload["msg"]["from_user_id"], "");
    assert_eq!(payload["msg"]["client_id"], "cid-1");
    assert_eq!(payload["msg"]["message_type"], 2);
    assert_eq!(payload["msg"]["message_state"], 2);
    assert_eq!(payload["msg"]["context_token"], "ctx-d");
    assert_eq!(payload["msg"]["item_list"][0]["type"], 1);
    assert_eq!(payload["msg"]["item_list"][0]["text_item"]["text"], "yo");
    let other = wx_json(&a.send_payload("erin", "cid-2", vec![]));
    assert!(other["msg"].get("context_token").is_none());
    assert!(a.build_send_payload("dave", vec![]).is_none());
    let built = wx_json(&a.build_send_payload("dave", vec![text_item("z")]).unwrap());
    assert_eq!(built["msg"]["client_id"].as_str().unwrap().len(), 36);
}

#[test]
fn upload_request_describes_the_file() {
    let req = wx_json(&upload_request("bob", b"abc", 1, "fk", "00112233445566778899aabbccddeeff"));
    assert_eq!(req["filekey"], "fk");
    assert_eq!(req["media_type"], 1);
    assert_eq!(req["to_user_id"], "bob");
    assert_eq!(req["rawsize"], 3);
    assert_eq!(req["rawfilemd5"], "900150983cd24fb0d6963f7d28e17f72");
    assert_eq!(req["filesize"], 16);
    assert_eq!(req["no_need_thumb"], true);
    assert_eq!(req["aeskey"], "00112233445566778899aabbccddeeff");
    let aligned = wx_json(&upload_request("bob", &[0u8; 16], 3, "fk", "k"));
    assert_eq!(aligned["filesize"], 32);
}

#[test]
fn upload_params_and_media_items() {
    let ok = wx_obj(vec![("upload_param", wx_str("p")), ("upload_full_url", wx_str(""))]);
    assert_eq!(upload_params(&ok).unwrap(), ("p".to_string(), None));
    let full = wx_obj(vec![("upload_param", wx_str("p")), ("upload_full_url", wx_str("https://u"))]);
    assert_eq!(upload_params(&full).unwrap(), ("p".to_string(), Some("https://u".to_string())));
    assert_eq!(upload_params(&wx_obj(vec![])).unwrap_err(), "missing upload_param");

    let key_hex = "00112233445566778899aabbccddeeff";
    let expected_key = base64::engine::general_purpose::STANDARD.encode(key_hex.as_bytes());
    let image = wx_json(&media_item(2, "q", key_hex, 32, "", 20).unwrap());
    assert_eq!(image["type"], 2);
    assert_eq!(image["image_item"]["media"]["encrypt_query_param"], "q");
    assert_eq!(image["image_item"]["media"]["aes_key"], expected_key.as_str());
    assert_eq!(image["image_item"]["media"]["encrypt_type"], 1);
    assert_eq!(image["image_item"]["mid_size"], 32);
    let voice = wx_json(&media_item(3, "q", key_hex, 48, "", 40).unwrap());
    assert_eq!(voice["voice_item"]["voice_size"], 48);
    let file = wx_json(&media_item(4, "q", key_hex, 48, "a.txt", 40).unwrap());
    assert_eq!(file["file_item"]["file_name"], "a.txt");
    assert_eq!(file["file_item"]["len"], "40");
    assert_eq!(media_item(7, "q", key_hex, 1, "", 1).unwrap_err(), "unsupported item type: 7");
    assert_eq!(media_item(-2, "q", key_hex, 1, "", 1).unwrap_err(), "unsupported item type: -2");
}

#[test]
fn media_keys_and_uuids() {
    let (file_key, aes_key) = new_media_keys().unwrap();
    assert_eq!(file_key.len(), 32);
    assert_eq!(&file_key[12..13], "4");
    assert_eq!(aes_key.len(), 32);
    assert!(hex::decode(&aes_key).is_ok());
    let bytes: Vec<u8> = (0..16).collect();
    assert_eq!(uuid_string(&bytes), "00010203-0405-0607-0809-0a0b0c0d0e0f");
    let u = new_uuid_string();
    assert_eq!(u.len(), 36);
    assert_eq!(u.matches('-').count(), 4);
    assert_ne!(new_uuid_string(), u);
    assert_eq!(&u[14..15], "4");
    assert!(matches!(&u[19..20], "8" | "9" | "a" | "b"));
}

#[test]
fn uuid_from_random_bytes_sets_version_and_variant() {
    assert_eq!(uuid_string_from(Ok(vec![0xff; 16])), "ffffffff-ffff-4fff-bfff-ffffffffffff");
    assert_eq!(uuid_string_from(Ok(vec![0; 16])), "00000000-0000-4000-8000-000000000000");
    let bytes: Vec<u8> = (0..16).collect();
    assert_eq!(uuid_string_from(Ok(bytes)), "00010203-0405-4607-8809-0a0b0c0d0e0f");
    assert_eq!(uuid_string_from(Err("no entropy".to_string())), "00000000-0000-0000-0000-000000000000");
    assert_eq!(uuid_string_from(Ok(vec![1, 2, 3])), "00000000-0000-0000-0000-000000000000");
}

#[test]
fn media_keys_from_random_bytes() {
    let (f, a) = media_keys_from(Ok(vec![0xff; 16]), Ok(vec![0; 16])).unwrap();
    assert_eq!(f, "ffffffffffff4fffbfffffffffffffff");
    assert_eq!(a, "00000000000040008000000000000000");
    assert_eq!(media_keys_from(Err("e1".to_string()), Err("e2".to_string())).unwrap_err(), "e1");
    assert_eq!(media_keys_from(Ok(vec![0; 16]), Err("e2".to_string())).unwrap_err(), "e2");
    assert_eq!(
        media_keys_from(Ok(vec![0; 15]), Ok(vec![0; 16])).unwrap_err(),
        "random source gave the wrong number of bytes"
    );
}

#[test]
fn typing_ticket_is_read_from_the_config() {
    assert_eq!(typing_ticket(&wx_obj(vec![("typing_ticket", wx_str("t"))])).unwrap(), "t");
    assert_eq!(typing_ticket(&wx_obj(vec![])).unwrap_err(), "missing typing_ticket");
}

#[test]
fn client_urls_and_headers() {
    let c = WeixinOCClient::new("https://api.example/", "https://cdn.example//", 5000, Some("tok".to_string()));
    assert_eq!(c.resolve_url("/ilink/bot/getupdates"), "https://api.example/ilink/bot/getupdates");
    assert_eq!(c.resolve_url("x"), "https://api.example/x");
    assert_eq!(c.build_cdn_upload_url("p", "f"), "https://cdn.example/upload?encrypted_query_param=p&filekey=f");
    assert_eq!(c.build_cdn_download_url("e"), "https://cdn.example/download?encrypted_query_param=e");
    let h = c.build_headers(true);
    assert_eq!(h.len(), 3);
    assert_eq!(h[0], ("content-type".to_string(), "application/json".to_string()));
    assert_eq!(h[1], ("AuthorizationType".to_string(), "ilink_bot_token".to_string()));
    assert_eq!(h[2], ("authorization".to_string(), "Bearer tok".to_string()));
    assert_eq!(c.build_headers(false).len(), 2);
    assert_eq!(WeixinOCClient::request_method("GET").unwrap(), HttpMethod::Get);
    assert_eq!(WeixinOCClient::request_method("POST").unwrap(), HttpMethod::Post);
    assert_eq!(WeixinOCClient::request_method("PUT").unwrap_err(), "unsupported method: PUT");
}

#[test]
fn cdn_media_round_trip() {
    let c = WeixinOCClient::new("b", "https://cdn", 5000, None);
    let key_hex = "000102030405060708090a0b0c0d0e0f";
    let (url, ct) = c.prepare_cdn_upload(None, "p", "f", key_hex, b"secret data").unwrap();
    assert_eq!(url, "https://cdn/upload?encrypted_query_param=p&filekey=f");
    assert_eq!(ct.len(), 16);
    let (url2, _) = c.prepare_cdn_upload(Some("https://full"), "p", "f", key_hex, b"x").unwrap();
    assert_eq!(url2, "https://full");
    assert!(c.prepare_cdn_upload(None, "p", "f", "zz", b"x").unwrap_err().starts_with("hex decode: "));
    let key_b64 = base64::engine::general_purpose::STANDARD.encode(key_hex.as_bytes());
    let raw_key = hex::decode(key_hex).unwrap();
    let key_raw_b64 = base64::engine::general_purpose::STANDARD.encode(&raw_key);
    // The base64 of the hex text decodes to 32 bytes, which are taken as a raw
    // AES-256 key: the wrong key for this ciphertext.
    assert_ne!(WeixinOCClient::decrypt_downloaded_media(&ct, &key_b64).unwrap_or_default(), b"secret data".to_vec());
    assert_eq!(WeixinOCClient::decrypt_downloaded_media(&ct, &key_raw_b64).unwrap(), b"secret data".to_vec());
    assert!(WeixinOCClient::decrypt_downloaded_media(&ct, "").unwrap_err().starts_with("parse aes key: "));
}

#[test]
fn weixin_event_wraps_the_message() {
    let mut a = WeixinOCAdapter::new("wx", "b", "c", None, String::new());
    let msgs = a.parse_sync_response(&wx_obj(vec![("msgs", JsonValue::Array(vec![text_msg("e1", "fay", "yo")]))]));
    let meta = PlatformMetadata::new("wx", "weixin_oc", "个人微信");
    let ev = WeixinOCMessageEvent::new(msgs.into_iter().next().unwrap(), meta);
    assert_eq!(ev.inner.get_message_str(), "yo");
}

#[test]
fn http_statuses_of_api_and_cdn() {
    assert!(api_status_check(200, "200 OK", "").is_ok());
    assert_eq!(api_status_check(502, "502 Bad Gateway", "down").unwrap_err(), "HTTP 502 Bad Gateway: down");
    assert_eq!(cdn_upload_outcome(200, "200 OK", "", Some("enc")).unwrap(), "enc");
    assert_eq!(cdn_upload_outcome(200, "200 OK", "", None).unwrap_err(), "missing x-encrypted-param header");
    assert_eq!(cdn_upload_outcome(403, "403 Forbidden", "no", Some("e")).unwrap_err(), "CDN upload client error 403 Forbidden: no");
    assert_eq!(cdn_upload_outcome(500, "500 Internal Server Error", "x", None).unwrap_err(), "CDN upload failed 500 Internal Server Error: x");
    assert!(cdn_download_check(200, "200 OK").is_ok());
    assert_eq!(cdn_download_check(404, "404 Not Found").unwrap_err(), "CDN download 404 Not Found");
    assert!(cdn_download_check(304, "304").is_ok());
}
