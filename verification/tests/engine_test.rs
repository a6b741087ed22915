use astrbot::config::{DashboardConfig, ProviderConfig};
use astrbot::engine::event_bus::PendingMessages;
use astrbot::engine::lifecycle::{jwt_secret_from, jwt_secret_with, provider_plans, ProviderPlan};
use astrbot::engine::pipeline::{Pipeline, PipelineStep, SkipReason};
use astrbot::platform::event::AstrMessageEvent;
use astrbot::platform::message::{AstrBotMessage, MessageMember, MessageType};
use astrbot::platform::metadata::PlatformMetadata;
use astrbot::provider::entities::LLMResponse;
use astrbot::provider::manager::ProviderManager;
use astrbot::utils::error::AstrBotError;

fn make_event(text: &str, session_id: &str, platform_id: &str) -> AstrMessageEvent {
    let msg = AstrBotMessage::new(MessageType::FriendMessage, "bot", session_id, "msg-1", MessageMember::new("user-1"), text);
    let meta = PlatformMetadata::new(platform_id, platform_id, platform_id);
    AstrMessageEvent::new(msg, meta, session_id)
}

fn providers_with_one() -> ProviderManager<&'static str> {
    let mut mgr = ProviderManager::new();
    mgr.register("mock".to_string(), "mock");
    mgr
}

#[test]
fn pipeline_asks_the_provider_for_a_known_platform() {
    let pipeline = Pipeline::new(vec![("test_platform".to_string(), 7u8)]);
    let step = pipeline.plan(&providers_with_one(), &make_event("What's up?", "session-1", "test_platform"));
    match step {
        PipelineStep::Ask { platform_index, session_id, request } => {
            assert_eq!(platform_index, 0);
            assert_eq!(pipeline.platforms[platform_index].1, 7);
            assert_eq!(session_id, "session-1");
            assert_eq!(request.prompt.as_deref(), Some("What's up?"));
            assert!(request.system_prompt.is_none() && request.contexts.is_empty() && !request.stream);
        },
        other => panic!("unexpected {other:?}"),
    }
}

#[test]
fn pipeline_skips_empty_unknown_and_unanswerable_messages() {
    let pipeline = Pipeline::new(vec![("real_platform".to_string(), ())]);
    let providers = providers_with_one();
    assert!(matches!(
        pipeline.plan(&providers, &make_event("", "session-1", "real_platform")),
        PipelineStep::Skip(SkipReason::EmptyMessage)
    ));
    assert!(matches!(
        pipeline.plan(&providers, &make_event("Hello", "session-1", "unknown_platform")),
        PipelineStep::Skip(SkipReason::UnknownPlatform)
    ));
    let none: ProviderManager<&str> = ProviderManager::new();
    assert!(matches!(
        pipeline.plan(&none, &make_event("Hello", "session-1", "real_platform")),
        PipelineStep::Skip(SkipReason::NoProvider)
    ));
}

#[test]
fn pipeline_routes_each_conversation_to_its_session() {
    let pipeline = Pipeline::new(vec![("a".to_string(), 'a'), ("p".to_string(), 'p')]);
    let providers = providers_with_one();
    let sessions: Vec<String> = [("First", "session-a"), ("Second", "session-b")]
        .iter()
        .map(|(text, sid)| match pipeline.plan(&providers, &make_event(text, sid, "p")) {
            PipelineStep::Ask { platform_index, session_id, .. } => {
                assert_eq!(platform_index, 1);
                session_id
            },
            other => panic!("unexpected {other:?}"),
        })
        .collect();
    assert_eq!(sessions, vec!["session-a".to_string(), "session-b".to_string()]);
    assert_eq!(pipeline.platform_index("a"), Some(0));
    assert_eq!(pipeline.platform_index("zz"), None);
}

#[test]
fn replies_carry_the_answer_or_an_apology() {
    let ok: Result<LLMResponse, AstrBotError> = Ok(LLMResponse::text("Hello from LLM!"));
    assert_eq!(Pipeline::<()>::reply_chain(&ok).get_plain_text(), "Hello from LLM!");
    let err: Result<LLMResponse, AstrBotError> = Err(AstrBotError::Provider("boom".to_string()));
    assert_eq!(Pipeline::<()>::reply_chain(&err).get_plain_text(), "抱歉，我遇到了一个错误：Provider error: boom");
}

#[test]
fn pending_messages_are_handled_once() {
    let mut pending = PendingMessages::new();
    assert!(pending.try_begin("m1"));
    assert!(!pending.try_begin("m1"));
    assert!(pending.try_begin("m2"));
    pending.finish("m1");
    assert!(pending.try_begin("m1"));
    pending.finish("m1");
    pending.finish("m1");
    pending.finish("m2");
    assert!(pending.ids.is_empty());
}

fn provider_cfg(id: &str, kind: &str, enable: bool) -> ProviderConfig {
    ProviderConfig {
        id: id.to_string(),
        provider_type: kind.to_string(),
        enable,
        model: None,
        api_key: None,
        base_url: None,
        extra: Vec::new(),
    }
}

#[test]
fn provider_plans_fill_in_defaults() {
    let mut custom = provider_cfg("gpt", "openai_chat_completion", true);
    custom.model = Some("gpt-4".to_string());
    custom.api_key = Some("sk".to_string());
    custom.base_url = Some("https://api.openai.com/".to_string());
    let configs = vec![
        provider_cfg("off", "openai_chat_completion", false),
        provider_cfg("deepseek", "openai_chat_completion", true),
        provider_cfg("odd", "anthropic", true),
        custom,
    ];
    let plans = provider_plans(&configs);
    assert_eq!(plans.len(), 3);
    match &plans[0] {
        ProviderPlan::OpenAICompat(p) => {
            assert_eq!(p.provider_id, "deepseek");
            assert_eq!(p.base_url, "https://api.deepseek.com");
            assert_eq!(p.model, "deepseek-chat");
            assert_eq!(p.authorization, "Bearer ");
        },
        other => panic!("unexpected {other:?}"),
    }
    match &plans[1] {
        ProviderPlan::Unsupported { id, provider_type } => {
            assert_eq!(id, "odd");
            assert_eq!(provider_type, "anthropic");
        },
        other => panic!("unexpected {other:?}"),
    }
    match &plans[2] {
        ProviderPlan::OpenAICompat(p) => {
            assert_eq!(p.base_url, "https://api.openai.com");
            assert_eq!(p.model, "gpt-4");
            assert_eq!(p.authorization, "Bearer sk");
        },
        other => panic!("unexpected {other:?}"),
    }
}

#[test]
fn jwt_secret_is_configured_or_random() {
    let mut d = DashboardConfig::default();
    assert_eq!(jwt_secret_with(&d, &[0xab, 0x01]), "ab01");
    let a = jwt_secret_from(&d).unwrap();
    assert_eq!(a.len(), 32);
    assert!(a.chars().all(|c| c.is_ascii_hexdigit()));
    assert_ne!(jwt_secret_from(&d).unwrap(), a);
    d.jwt_secret = Some("fixed".to_string());
    assert_eq!(jwt_secret_from(&d).unwrap(), "fixed");
    assert_eq!(jwt_secret_with(&d, &[1, 2]), "fixed");
}
