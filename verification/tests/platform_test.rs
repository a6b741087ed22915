use astrbot::config::{ConfigValue, PlatformConfig};
use astrbot::json::JsonValue;
use astrbot::platform::event::AstrMessageEvent;
use astrbot::platform::manager::{PlatformManager, PlatformPlan};
use astrbot::platform::message::{timestamp_from, AstrBotMessage, Group, MessageMember, MessageType};
use astrbot::platform::message_chain::{At, File, Image, MessageChain, MessageComponent, Plain, Record, Reply};
use astrbot::platform::metadata::PlatformMetadata;
use astrbot::platform::sources::ecs_bridge::{outgoing_frame, reconnect_backoff, EcsBridgeAdapter};

fn pf_str(text: &str) -> JsonValue {
    JsonValue::Str(text.to_string())
}

fn pf_obj(pairs: Vec<(&str, JsonValue)>) -> JsonValue {
    JsonValue::Object(pairs.into_iter().map(|(k, v)| (k.to_string(), v)).collect())
}

fn frame(data: JsonValue) -> JsonValue {
    pf_obj(vec![("type", pf_str("message")), ("data", data)])
}

#[test]
fn message_chain_plain_text() {
    let mut chain = MessageChain::new();
    assert!(chain.is_empty());
    assert_eq!(chain.get_plain_text(), "");
    chain.push(MessageComponent::Plain(Plain::new("Hello, ")));
    chain.push(MessageComponent::At(At::new("u1")));
    chain.push(MessageComponent::Image(Image::from_url("http://x")));
    chain.push(MessageComponent::Plain(Plain::new("world")));
    chain.push(MessageComponent::Reply(Reply::new("m", "u")));
    assert!(!chain.is_empty());
    assert_eq!(chain.chain.len(), 5);
    assert_eq!(chain.get_plain_text(), "Hello, world");
    assert_eq!(MessageChain::text("hi").get_plain_text(), "hi");
    assert_eq!(MessageChain::from("from".to_string()).get_plain_text(), "from");
}

#[test]
fn message_components_keep_their_fields() {
    let img = Image::from_file("/a.png");
    assert_eq!(img.path.as_deref(), Some("/a.png"));
    assert!(img.url.is_none() && img.base64.is_none());
    let url = Image::from_url("http://b");
    assert_eq!(url.url.as_deref(), Some("http://b"));
    let at = At::new("u");
    assert_eq!(at.user_id, "u");
    assert!(at.nickname.is_none());
    let reply = Reply::new("m1", "s1");
    assert_eq!((reply.message_id.as_str(), reply.sender_id.as_str()), ("m1", "s1"));
    assert!(reply.message_str.is_none());
    let f = File::new("n.txt", "/f");
    assert_eq!((f.name.as_str(), f.file.as_str()), ("n.txt", "/f"));
    let r = Record::new("/v");
    assert_eq!(r.file, "/v");
    assert!(r.url.is_none());
}

#[test]
fn message_type_names_round_trip() {
    for t in [MessageType::FriendMessage, MessageType::GroupMessage, MessageType::ChannelMessage, MessageType::Unknown] {
        assert_eq!(MessageType::from_str(t.as_str()), t);
    }
    assert_eq!(MessageType::FriendMessage.as_str(), "friend");
    assert_eq!(MessageType::GroupMessage.as_str(), "group");
    assert_eq!(MessageType::ChannelMessage.as_str(), "channel");
    assert_eq!(MessageType::Unknown.as_str(), "unknown");
    assert_eq!(MessageType::from_str("Friend"), MessageType::Unknown);
    assert_eq!(MessageType::from_str(""), MessageType::Unknown);
}

#[test]
fn event_accessors() {
    let mut member = MessageMember::new("user-1");
    assert!(member.nickname.is_none());
    member.nickname = Some("Ann".to_string());
    let msg = AstrBotMessage::new(MessageType::FriendMessage, "bot", "session-1", "msg-1", member, "hello");
    assert!(msg.group.is_none());
    assert!(msg.message.is_empty());
    let meta = PlatformMetadata::new("wx1", "weixin_oc", "WeChat");
    assert!(!meta.support_streaming);
    let ev = AstrMessageEvent::new(msg, meta, "session-1");
    assert_eq!(ev.get_platform_id(), "wx1");
    assert_eq!(ev.get_platform_name(), "weixin_oc");
    assert_eq!(ev.get_message_str(), "hello");
    assert_eq!(ev.get_sender_id(), "user-1");
    assert_eq!(ev.get_sender_name(), "Ann");
    assert!(ev.is_private());
    assert!(!ev.is_admin());
    assert_eq!(ev.role, "member");
    assert!(!ev.is_wake);
    assert_eq!(ev.unified_msg_origin, "wx1:friend:session-1");

    let group_msg = AstrBotMessage::new(MessageType::GroupMessage, "bot", "g", "m", MessageMember::new("u"), "x");
    let gev = AstrMessageEvent::new(group_msg, PlatformMetadata::new("p", "n", "d"), "g");
    assert!(!gev.is_private());
    assert_eq!(gev.get_sender_name(), "");
    assert_eq!(gev.unified_msg_origin, "p:group:g");
    let g = Group::new("room");
    assert_eq!(g.group_id, "room");
    assert!(g.group_name.is_none());
}

#[test]
fn platform_plans_follow_the_config() {
    let configs = vec![
        PlatformConfig { id: "off".to_string(), platform_type: "weixin_oc".to_string(), enable: false, extra: Vec::new() },
        PlatformConfig {
            id: "wx".to_string(),
            platform_type: "weixin_oc".to_string(),
            enable: true,
            extra: vec![
                ("weixin_oc_token".to_string(), ConfigValue::Str("tok".to_string())),
                ("weixin_oc_base_url".to_string(), ConfigValue::Str("https://b".to_string())),
            ],
        },
        PlatformConfig { id: "q".to_string(), platform_type: "qq".to_string(), enable: true, extra: Vec::new() },
    ];
    let plans = PlatformManager::<u8>::plan_from_config(&configs);
    assert_eq!(plans.len(), 2);
    match &plans[0] {
        PlatformPlan::WeixinOC { id, base_url, cdn_base_url, token } => {
            assert_eq!(id, "wx");
            assert_eq!(base_url, "https://b");
            assert_eq!(cdn_base_url, "https://novac2c.cdn.weixin.qq.com/c2c");
            assert_eq!(token.as_deref(), Some("tok"));
        },
        other => panic!("unexpected {other:?}"),
    }
    match &plans[1] {
        PlatformPlan::Unsupported(t) => assert_eq!(t, "qq"),
        other => panic!("unexpected {other:?}"),
    }
}

#[test]
fn platform_manager_collects_platforms() {
    let mut mgr: PlatformManager<&str> = PlatformManager::new();
    assert!(mgr.is_empty());
    mgr.add("a");
    mgr.add("b");
    assert_eq!(mgr.len(), 2);
    assert_eq!(mgr.platforms(), &["a", "b"]);
}

#[test]
fn ecs_bridge_reads_message_frames_once() {
    let mut a = EcsBridgeAdapter::new("ecs", "ws://bridge");
    assert_eq!(a.meta.name, "ecs_bridge");
    assert_eq!(a.meta.display_name, "微信");
    let data = pf_obj(vec![
        ("session_id", pf_str("sess")),
        ("sender_id", pf_str("u9")),
        ("sender_name", pf_str("Zed")),
        ("message_id", pf_str("id-1")),
        ("text", pf_str("ping")),
        ("message_type", pf_str("group")),
        ("group_id", pf_str("grp")),
    ]);
    let ev = a.parse_incoming(&frame(data)).unwrap();
    assert_eq!(ev.session_id, "sess");
    assert_eq!(ev.get_message_str(), "ping");
    assert_eq!(ev.get_sender_name(), "Zed");
    assert_eq!(ev.message_obj.message_type, MessageType::GroupMessage);
    assert_eq!(ev.message_obj.group.as_ref().unwrap().group_id, "grp");
    assert_eq!(ev.unified_msg_origin, "ecs:group:sess");
    let again = pf_obj(vec![("session_id", pf_str("sess")), ("message_id", pf_str("id-1")), ("text", pf_str("ping"))]);
    assert!(a.parse_incoming(&frame(again)).is_none());
    let no_id = pf_obj(vec![("session_id", pf_str("sess")), ("text", pf_str("a"))]);
    assert!(a.parse_incoming(&frame(no_id)).is_some());
    let no_id2 = pf_obj(vec![("session_id", pf_str("sess")), ("text", pf_str("a"))]);
    assert!(a.parse_incoming(&frame(no_id2)).is_some());
    assert!(a.parse_incoming(&pf_obj(vec![("type", pf_str("pong"))])).is_none());
    assert!(a.parse_incoming(&frame(pf_obj(vec![("text", pf_str("no session"))]))).is_none());
}

#[test]
fn ecs_bridge_forgets_old_ids_past_the_limit() {
    let mut a = EcsBridgeAdapter::new("ecs", "ws://bridge");
    for i in 0..10001 {
        let data = pf_obj(vec![("session_id", pf_str("s")), ("message_id", JsonValue::Str(format!("m{i}")))]);
        assert!(a.parse_incoming(&frame(data)).is_some());
    }
    assert_eq!(a.seen_ids.len(), 5001);
    let old = pf_obj(vec![("session_id", pf_str("s")), ("message_id", pf_str("m0"))]);
    assert!(a.parse_incoming(&frame(old)).is_some());
    let recent = pf_obj(vec![("session_id", pf_str("s")), ("message_id", pf_str("m9000"))]);
    assert!(a.parse_incoming(&frame(recent)).is_none());
}

#[test]
fn ecs_bridge_outgoing_frames_and_backoff() {
    assert!(outgoing_frame("s", &MessageChain::new()).is_none());
    let f = outgoing_frame("s1", &MessageChain::text("hi")).unwrap();
    assert_eq!(f.get_str("type").as_deref(), Some("send_message"));
    let data = f.get("data").unwrap();
    assert_eq!(data.get_str("session_id").as_deref(), Some("s1"));
    assert_eq!(data.get_str("text").as_deref(), Some("hi"));
    assert_eq!(reconnect_backoff(true, 16), (1, 2));
    assert_eq!(reconnect_backoff(false, 4), (4, 8));
    assert_eq!(reconnect_backoff(false, 16), (16, 30));
    assert_eq!(reconnect_backoff(false, 30), (30, 30));
}

#[test]
fn new_messages_are_stamped_with_the_current_time() {
    let before = std::time::SystemTime::now().duration_since(std::time::UNIX_EPOCH).unwrap().as_secs() as i64;
    let msg = AstrBotMessage::new(MessageType::FriendMessage, "bot", "s", "m", MessageMember::new("u"), "t");
    let after = std::time::SystemTime::now().duration_since(std::time::UNIX_EPOCH).unwrap().as_secs() as i64;
    assert!(before <= msg.timestamp && msg.timestamp <= after);
    let fixed = AstrBotMessage::new_at(MessageType::GroupMessage, "bot", "s", "m", MessageMember::new("u"), "t", 42);
    assert_eq!(fixed.timestamp, 42);
}

#[test]
fn clock_readings_become_timestamps() {
    assert_eq!(timestamp_from(Some(1_700_000_000)), 1_700_000_000);
    assert_eq!(timestamp_from(Some(u64::MAX)), i64::MAX);
    assert_eq!(timestamp_from(Some(i64::MAX as u64)), i64::MAX);
    assert_eq!(timestamp_from(None), 0);
}
