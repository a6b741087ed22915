use astrbot::config::{
    default_host, default_jwt_secret, default_port, extra_get_str, AstrBotConfig, ConfigValue, DashboardConfig,
    PlatformConfig, ProviderConfig,
};

#[test]
fn test_default_config() {
    let config = AstrBotConfig::default_config();

    assert_eq!(config.dashboard.host, "0.0.0.0");
    assert_eq!(config.dashboard.port, 6185);
    assert_eq!(config.dashboard.username.as_deref(), Some("astrbot"));
    assert_eq!(config.dashboard.password.as_deref(), Some("astrbot"));

    assert_eq!(config.provider.len(), 1);
    assert_eq!(config.provider[0].id, "deepseek");
    assert_eq!(config.provider[0].provider_type, "openai_chat_completion");
    assert!(!config.provider[0].enable);
    assert_eq!(config.provider[0].model.as_deref(), Some("deepseek-chat"));
    assert_eq!(config.provider[0].base_url.as_deref(), Some("https://api.deepseek.com"));

    assert_eq!(config.platform.len(), 1);
    assert_eq!(config.platform[0].id, "my_wechat");
    assert_eq!(config.platform[0].platform_type, "weixin_oc");
    assert!(!config.platform[0].enable);
}

#[test]
fn dashboard_section_defaults() {
    assert_eq!(default_host(), "0.0.0.0");
    assert_eq!(default_port(), 6185);
    assert!(default_jwt_secret().is_none());
    let d = DashboardConfig::default();
    assert_eq!(d.host, "0.0.0.0");
    assert_eq!(d.port, 6185);
    assert!(d.username.is_none() && d.password.is_none() && d.jwt_secret.is_none());
}

#[test]
fn apply_update_replaces_only_given_sections() {
    let mut config = AstrBotConfig::default_config();
    let dashboard = DashboardConfig {
        host: "127.0.0.1".to_string(),
        port: 8080,
        username: None,
        password: None,
        jwt_secret: Some("s".to_string()),
    };
    config.apply_update(Some(dashboard), None, Some(Vec::new()));
    assert_eq!(config.dashboard.host, "127.0.0.1");
    assert_eq!(config.dashboard.port, 8080);
    assert_eq!(config.dashboard.jwt_secret.as_deref(), Some("s"));
    assert_eq!(config.provider.len(), 1);
    assert_eq!(config.provider[0].id, "deepseek");
    assert!(config.platform.is_empty());

    let provider = vec![ProviderConfig {
        id: "gpt".to_string(),
        provider_type: "openai_chat_completion".to_string(),
        enable: true,
        model: Some("gpt-4".to_string()),
        api_key: None,
        base_url: None,
        extra: Vec::new(),
    }];
    config.apply_update(None, Some(provider), None);
    assert_eq!(config.dashboard.port, 8080);
    assert_eq!(config.provider[0].id, "gpt");
    assert!(config.platform.is_empty());
}

#[test]
fn extra_string_lookup() {
    let extra = vec![
        ("token".to_string(), ConfigValue::Str("abc".to_string())),
        ("port".to_string(), ConfigValue::Int(5)),
        ("token".to_string(), ConfigValue::Str("later".to_string())),
    ];
    assert_eq!(extra_get_str(&extra, "token").as_deref(), Some("abc"));
    assert_eq!(extra_get_str(&extra, "port"), None);
    assert_eq!(extra_get_str(&extra, "missing"), None);
    let platform = PlatformConfig {
        id: "p".to_string(),
        platform_type: "weixin_oc".to_string(),
        enable: true,
        extra,
    };
    assert_eq!(extra_get_str(&platform.extra, "token").as_deref(), Some("abc"));
}
