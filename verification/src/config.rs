//! The bot's configuration: dashboard, LLM providers and platforms.
use vstd::prelude::*;

use crate::text::{str_eq, string_from};

verus! {

/// The dashboard's address and credentials.
#[derive(Debug, Clone)]
pub struct DashboardConfig {
    pub host: String,
    pub port: u16,
    pub username: Option<String>,
    pub password: Option<String>,
    pub jwt_secret: Option<String>,
}

impl Default for DashboardConfig {
    /// The dashboard section used when a configuration has none: the default
    /// address `0.0.0.0:6185`, no credentials and no secret.
    fn default() -> (r: DashboardConfig)
        ensures
            r.host@ == "0.0.0.0"@,
            r.port == 6185,
            r.username is None,
            r.password is None,
            r.jwt_secret is None,
    {
        DashboardConfig {
            host: default_host(),
            port: default_port(),
            username: None,
            password: None,
            jwt_secret: default_jwt_secret(),
        }
    }
}

/// The host used when the dashboard section gives none.
pub fn default_host() -> (r: String)
    ensures
        r@ == "0.0.0.0"@,
{
    string_from("0.0.0.0")
}

/// The port used when the dashboard section gives none.
pub fn default_port() -> (r: u16)
    ensures
        r == 6185,
{
    6185
}

/// The JWT secret used when the dashboard section gives none: none, so that one is
/// generated at start-up.
pub fn default_jwt_secret() -> (r: Option<String>)
    ensures
        r is None,
{
    None
}

/// An extra configuration value. Numbers other than integers, dates, arrays and
/// tables are kept as their TOML text.
#[derive(Debug, Clone)]
pub enum ConfigValue {
    Str(String),
    Int(i64),
    Bool(bool),
    Other(String),
}

/// One configured LLM provider.
#[derive(Debug, Clone)]
pub struct ProviderConfig {
    pub id: String,
    pub provider_type: String,
    pub enable: bool,
    pub model: Option<String>,
    pub api_key: Option<String>,
    pub base_url: Option<String>,
    pub extra: Vec<(String, ConfigValue)>,
}

/// One configured platform.
#[derive(Debug, Clone)]
pub struct PlatformConfig {
    pub id: String,
    pub platform_type: String,
    pub enable: bool,
    pub extra: Vec<(String, ConfigValue)>,
}

/// The whole configuration.
#[derive(Debug, Clone)]
pub struct AstrBotConfig {
    pub dashboard: DashboardConfig,
    pub provider: Vec<ProviderConfig>,
    pub platform: Vec<PlatformConfig>,
}

/// The text of the first extra value named `key`, when it is text.
pub open spec fn extra_str(extra: Seq<(String, ConfigValue)>, key: Seq<char>) -> Option<Seq<char>>
    decreases extra.len(),
{
    if extra.len() == 0 {
        None
    } else if extra[0].0@ == key {
        match extra[0].1 {
            ConfigValue::Str(s) => Some(s@),
            _ => None,
        }
    } else {
        extra_str(extra.drop_first(), key)
    }
}

/// Law: looking up `key` finds the first entry named `key` and gives its text when
/// it is text (nothing when it is another kind of value); where no entry is named
/// `key`, nothing is found.
pub proof fn lemma_extra_str_lookup(extra: Seq<(String, ConfigValue)>, key: Seq<char>, i: int)
    requires
        0 <= i < extra.len(),
        extra[i].0@ == key,
        forall|j: int| 0 <= j < i ==> extra[j].0@ != key,
    ensures
        extra_str(extra, key) == match extra[i].1 {
            ConfigValue::Str(s) => Some(s@),
            _ => None::<Seq<char>>,
        },
    decreases i,
{
    if i > 0 {
        lemma_extra_str_lookup(extra.drop_first(), key, i - 1);
    }
}

/// Law: a key that names no entry is not found.
pub proof fn lemma_extra_str_absent(extra: Seq<(String, ConfigValue)>, key: Seq<char>)
    requires
        forall|j: int| 0 <= j < extra.len() ==> extra[j].0@ != key,
    ensures
        extra_str(extra, key) is None,
    decreases extra.len(),
{
    if extra.len() > 0 {
        lemma_extra_str_absent(extra.drop_first(), key);
    }
}

/// The text of the extra value named `key`, when there is one and it is text
/// (`extra.get(key).and_then(|v| v.as_str())`).
pub fn extra_get_str(extra: &Vec<(String, ConfigValue)>, key: &str) -> (r: Option<String>)
    ensures
        match r {
            Some(s) => extra_str(extra@, key@) == Some(s@),
            None => extra_str(extra@, key@) is None,
        },
{
    assert(extra@.skip(0) =~= extra@);
    let mut i: usize = 0;
    while i < extra.len()
        invariant
            i <= extra@.len(),
            extra_str(extra@, key@) == extra_str(extra@.skip(i as int), key@),
        decreases extra.len() - i,
    {
        assert(extra@.skip(i as int).drop_first() =~= extra@.skip(i + 1));
        if str_eq(extra[i].0.as_str(), key) {
            return match &extra[i].1 {
                ConfigValue::Str(s) => Some(s.clone()),
                _ => None,
            };
        }
        i = i + 1;
    }
    None
}

impl AstrBotConfig {
    /// The configuration written on first start: the dashboard on `0.0.0.0:6185`
    /// with user and password `astrbot`, one disabled DeepSeek provider and one
    /// disabled personal WeChat platform.
    pub fn default_config() -> (r: AstrBotConfig)
        ensures
            r.dashboard.host@ == "0.0.0.0"@,
            r.dashboard.port == 6185,
            r.dashboard.username matches Some(u) && u@ == "astrbot"@,
            r.dashboard.password matches Some(p) && p@ == "astrbot"@,
            r.dashboard.jwt_secret is None,
            r.provider@.len() == 1,
            r.provider@[0].id@ == "deepseek"@,
            r.provider@[0].provider_type@ == "openai_chat_completion"@,
            !r.provider@[0].enable,
            r.provider@[0].model matches Some(m) && m@ == "deepseek-chat"@,
            r.provider@[0].api_key is None,
            r.provider@[0].base_url matches Some(b) && b@ == "https://api.deepseek.com"@,
            r.provider@[0].extra@.len() == 0,
            r.platform@.len() == 1,
            r.platform@[0].id@ == "my_wechat"@,
            r.platform@[0].platform_type@ == "weixin_oc"@,
            !r.platform@[0].enable,
            r.platform@[0].extra@.len() == 0,
    {
        let mut provider: Vec<ProviderConfig> = Vec::new();
        provider.push(
            ProviderConfig {
                id: string_from("deepseek"),
                provider_type: string_from("openai_chat_completion"),
                enable: false,
                model: Some(string_from("deepseek-chat")),
                api_key: None,
                base_url: Some(string_from("https://api.deepseek.com")),
                extra: Vec::new(),
            },
        );
        let mut platform: Vec<PlatformConfig> = Vec::new();
        platform.push(
            PlatformConfig {
                id: string_from("my_wechat"),
                platform_type: string_from("weixin_oc"),
                enable: false,
                extra: Vec::new(),
            },
        );
        AstrBotConfig {
            dashboard: DashboardConfig {
                host: string_from("0.0.0.0"),
                port: 6185,
                username: Some(string_from("astrbot")),
                password: Some(string_from("astrbot")),
                jwt_secret: None,
            },
            provider,
            platform,
        }
    }

    /// Replaces each section for which an update is given, keeping the others.
    pub fn apply_update(
        &mut self,
        dashboard: Option<DashboardConfig>,
        provider: Option<Vec<ProviderConfig>>,
        platform: Option<Vec<PlatformConfig>>,
    )
        ensures
            final(self).dashboard == match dashboard {
                Some(d) => d,
                None => old(self).dashboard,
            },
            final(self).provider == match provider {
                Some(p) => p,
                None => old(self).provider,
            },
            final(self).platform == match platform {
                Some(p) => p,
                None => old(self).platform,
            },
    {
        match dashboard {
            Some(d) => {
                self.dashboard = d;
            },
            None => {},
        }
        match provider {
            Some(p) => {
                self.provider = p;
            },
            None => {},
        }
        match platform {
            Some(p) => {
                self.platform = p;
            },
            None => {},
        }
    }
}

} // verus!
